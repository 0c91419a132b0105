use manifest_generator::manifest::ManifestFile;
use manifest_generator::order::{insert_sorted, is_path_le};
use manifest_generator::separators::normalize_separators;

fn record(path: &str) -> ManifestFile {
    ManifestFile::new(path.to_string(), String::new(), 0, None)
}

fn paths(list: &Vec<ManifestFile>) -> Vec<String> {
    list.iter().map(|f| f.path.clone()).collect()
}

#[test]
fn a_path_is_at_its_own_place() {
    assert!(is_path_le("", ""));
    assert!(is_path_le("readme.txt", "readme.txt"));
}

#[test]
fn a_prefix_comes_first() {
    assert!(is_path_le("", "a"));
    assert!(!is_path_le("a", ""));
    assert!(is_path_le("app", "app.exe"));
    assert!(!is_path_le("app.exe", "app"));
}

#[test]
fn bytes_decide_within_a_component() {
    assert!(is_path_le("linux-64/app", "readme.txt"));
    assert!(is_path_le("readme.txt", "windows-64/app.exe"));
    assert!(!is_path_le("windows-64/app.exe", "linux-64/app"));
    assert!(is_path_le("A", "a"));
    assert!(!is_path_le("b", "a"));
}

#[test]
fn a_directory_comes_before_longer_names() {
    // `-` and `.` are smaller bytes than `/`, and still come after it.
    assert!(is_path_le("a/x", "a-b/x"));
    assert!(!is_path_le("a-b/x", "a/x"));
    assert!(is_path_le("linux-64/app", "linux-64.txt"));
    assert!(!is_path_le("linux-64.txt", "linux-64/app"));
    assert!(is_path_le("a/b", "a b"));
}

#[test]
fn bytes_beyond_ascii_are_compared_as_bytes() {
    assert!(is_path_le("z", "\u{e9}"));
    assert!(!is_path_le("\u{e9}", "z"));
    assert!(is_path_le("\u{e9}", "\u{4e2d}"));
}

#[test]
fn insertion_keeps_the_order() {
    let mut list = Vec::new();
    for path in ["m", "a/x", "z", "a-b/x", "a", "a/b"] {
        insert_sorted(&mut list, record(path));
    }
    assert_eq!(paths(&list), vec!["a", "a/b", "a/x", "a-b/x", "m", "z"]);
}

#[test]
fn equal_paths_keep_the_order_of_insertion() {
    let mut list = Vec::new();
    insert_sorted(&mut list, ManifestFile::new("a".to_string(), "first".to_string(), 1, None));
    insert_sorted(&mut list, ManifestFile::new("b".to_string(), "b".to_string(), 2, None));
    insert_sorted(&mut list, ManifestFile::new("a".to_string(), "second".to_string(), 3, None));
    let hashes: Vec<&str> = list.iter().map(|f| f.hash.as_str()).collect();
    assert_eq!(hashes, vec!["first", "second", "b"]);
}

#[test]
fn separators_become_forward_slashes() {
    assert_eq!(normalize_separators("windows-64\\bin\\app.exe", '\\'), "windows-64/bin/app.exe");
    assert_eq!(normalize_separators("a/b\\c", '\\'), "a/b/c");
    assert_eq!(normalize_separators("", '\\'), "");
}

#[test]
fn other_characters_are_kept() {
    assert_eq!(normalize_separators("linux-64/my\\file", '/'), "linux-64/my\\file");
    assert_eq!(normalize_separators("d\u{e9}j\u{e0}:vu", ':'), "d\u{e9}j\u{e0}/vu");
}
