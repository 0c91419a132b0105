use manifest_generator::digest::content_hash;
use manifest_generator::manifest::ManifestPlatform;
use manifest_generator::platform::{choose_platform, classify};

#[test]
fn windows_rule_is_tried_first() {
    assert_eq!(choose_platform(true, false), Some(ManifestPlatform::Windows));
    assert_eq!(choose_platform(true, true), Some(ManifestPlatform::Windows));
    assert_eq!(choose_platform(false, true), Some(ManifestPlatform::Linux));
    assert_eq!(choose_platform(false, false), None);
}

#[test]
fn paths_with_a_windows_word() {
    assert_eq!(classify("windows-64/app.exe"), Some(ManifestPlatform::Windows));
    assert_eq!(classify("bin/windows-arm/tool"), Some(ManifestPlatform::Windows));
    assert_eq!(classify("pkg/my-windows-"), Some(ManifestPlatform::Windows));
    assert_eq!(classify("windows-"), Some(ManifestPlatform::Windows));
}

#[test]
fn paths_with_a_linux_word() {
    assert_eq!(classify("linux-64/app"), Some(ManifestPlatform::Linux));
    assert_eq!(classify("lib/x/linux-musl.so"), Some(ManifestPlatform::Linux));
    assert_eq!(classify("linux-"), Some(ManifestPlatform::Linux));
}

#[test]
fn paths_with_both_words_are_for_windows() {
    assert_eq!(classify("linux-64/windows-64/app"), Some(ManifestPlatform::Windows));
    assert_eq!(classify("windows-on-linux-x"), Some(ManifestPlatform::Windows));
}

#[test]
fn paths_with_neither_word_have_no_tag() {
    assert_eq!(classify("readme.txt"), None);
    assert_eq!(classify(""), None);
    assert_eq!(classify("windows/app.exe"), None);
    assert_eq!(classify("linux/app"), None);
    assert_eq!(classify("Windows-64/app.exe"), None);
    assert_eq!(classify("LINUX-64/app"), None);
    assert_eq!(classify("windows_-64/linu-x"), None);
}

#[test]
fn the_word_may_span_no_separator() {
    assert_eq!(classify("windows/-64"), None);
    assert_eq!(classify("a/b/c/linux-"), Some(ManifestPlatform::Linux));
    assert_eq!(classify("line1\nwindows-64"), Some(ManifestPlatform::Windows));
}

#[test]
fn digest_of_known_inputs() {
    assert_eq!(
        content_hash(b""),
        "af1349b9f5f9a1a6a0404dea36dcc9499bcb25c9adc112b7cc9a93cae41f3262"
    );
    assert_eq!(
        content_hash(b"abc"),
        "6437b3ac38465133ffb63b75273a8db548c558465d79db03fd359c6cd5bd9d85"
    );
}

#[test]
fn digest_is_lowercase_hexadecimal() {
    let data: Vec<u8> = (0u32..3000).map(|i| (i % 251) as u8).collect();
    let hex = content_hash(&data);
    assert_eq!(hex.len(), 64);
    assert!(hex.chars().all(|c| c.is_ascii_digit() || ('a'..='f').contains(&c)));
    assert_eq!(hex, blake3::hash(&data).to_hex().to_string());
}

#[test]
fn digest_depends_on_the_bytes_only() {
    let first = content_hash(b"first file");
    let other = content_hash(b"another file");
    let again = content_hash(b"first file");
    assert_eq!(first, again);
    assert_ne!(first, other);
    assert_ne!(content_hash(b"first fileanother file"), other);
}
