use manifest_generator::generator::{
    file_record, is_included, BuildError, Generator, GeneratorBuilder, SourceFile,
};
use manifest_generator::globs::{MAX_NESTING, MAX_TABLE_ENTRIES};
use manifest_generator::manifest::{ManifestFile, ManifestPlatform, Metadata};

fn strings(items: &[&str]) -> Vec<String> {
    items.iter().map(|s| s.to_string()).collect()
}

fn generator(whitelist: &[&str], blacklist: &[&str]) -> Generator {
    GeneratorBuilder::default()
        .with_whitelist(strings(whitelist))
        .with_blacklist(strings(blacklist))
        .version("1.0.0".to_string())
        .try_build()
        .unwrap()
}

fn source(path: &str, content: &[u8]) -> SourceFile {
    SourceFile { path: path.to_string(), content: content.to_vec() }
}

fn paths(list: &Vec<ManifestFile>) -> Vec<String> {
    list.iter().map(|f| f.path.clone()).collect()
}

#[test]
fn filter_rule_on_the_matches() {
    // blacklisted, whitelist configured, whitelisted
    assert!(is_included(false, false, false));
    assert!(is_included(false, false, true));
    assert!(!is_included(false, true, false));
    assert!(is_included(false, true, true));
    assert!(!is_included(true, false, false));
    assert!(!is_included(true, false, true));
    assert!(!is_included(true, true, false));
    assert!(!is_included(true, true, true));
}

#[test]
fn without_filters_every_path_passes() {
    let g = generator(&[], &[]);
    assert!(g.accepts("readme.txt"));
    assert!(g.accepts("a/b/c.bin"));
    assert!(g.accepts(""));
}

#[test]
fn default_generator_has_no_filters() {
    let g = Generator::default();
    assert!(g.accepts("anything/at/all"));
    let patch = g.generate_patch(&vec![source("b", b"2"), source("a", b"1")]);
    assert_eq!(patch.version, "");
    assert_eq!(patch.depends_on, None);
    assert_eq!(paths(&patch.files), strings(&["a", "b"]));
}

#[test]
fn whitelist_keeps_what_matches() {
    let g = generator(&["*.exe", "docs/*"], &[]);
    assert!(g.accepts("windows-64/app.exe"));
    assert!(g.accepts("docs/guide/intro.md"));
    assert!(!g.accepts("readme.txt"));
    assert!(!g.accepts("app.exe.bak"));
}

#[test]
fn blacklist_comes_before_the_whitelist() {
    let g = generator(&["*"], &["*.tmp", "cache/*"]);
    assert!(g.accepts("readme.txt"));
    assert!(!g.accepts("build/out.tmp"));
    assert!(!g.accepts("cache/index"));
    let both = generator(&["*.exe"], &["*.exe"]);
    assert!(!both.accepts("app.exe"));
    assert!(!both.accepts("app.txt"));
}

#[test]
fn blacklist_alone_lets_the_rest_pass() {
    let g = generator(&[], &["*.log"]);
    assert!(g.accepts("readme.txt"));
    assert!(!g.accepts("run/today.log"));
}

#[test]
fn selection_keeps_the_given_order() {
    let g = generator(&["*.rs", "*.toml"], &["target/*"]);
    let chosen = g.select_paths(&strings(&[
        "src/main.rs",
        "target/debug/build.rs",
        "Cargo.toml",
        "readme.md",
        "src/lib.rs",
    ]));
    assert_eq!(chosen, strings(&["src/main.rs", "Cargo.toml", "src/lib.rs"]));
    assert_eq!(g.select_paths(&Vec::new()), Vec::<String>::new());
}

#[test]
fn record_of_a_file() {
    let record = file_record(&source("linux-64/app", b"twelve bytes"));
    assert_eq!(record.path, "linux-64/app");
    assert_eq!(record.size, 12);
    assert_eq!(record.hash, blake3::hash(b"twelve bytes").to_hex().to_string());
    assert_eq!(record.meta, Some(Metadata { platform: Some(ManifestPlatform::Linux) }));
    let plain = file_record(&source("readme.txt", b""));
    assert_eq!(plain.size, 0);
    assert_eq!(plain.meta, None);
    assert_eq!(
        plain.hash,
        "af1349b9f5f9a1a6a0404dea36dcc9499bcb25c9adc112b7cc9a93cae41f3262"
    );
}

#[test]
fn file_list_of_a_small_tree() {
    let g = generator(&["*"], &[]);
    let list = g.generate_files_list(&vec![
        source("windows-64/app.exe", b"0123456789"),
        source("linux-64/app", b"0123456789ab"),
        source("readme.txt", b"hello"),
    ]);
    assert_eq!(
        list,
        vec![
            ManifestFile {
                path: "linux-64/app".to_string(),
                hash: blake3::hash(b"0123456789ab").to_hex().to_string(),
                size: 12,
                meta: Some(Metadata { platform: Some(ManifestPlatform::Linux) }),
            },
            ManifestFile {
                path: "readme.txt".to_string(),
                hash: blake3::hash(b"hello").to_hex().to_string(),
                size: 5,
                meta: None,
            },
            ManifestFile {
                path: "windows-64/app.exe".to_string(),
                hash: blake3::hash(b"0123456789").to_hex().to_string(),
                size: 10,
                meta: Some(Metadata { platform: Some(ManifestPlatform::Windows) }),
            },
        ]
    );
}

#[test]
fn file_list_holds_the_passing_files_in_path_order() {
    let g = generator(&["*.bin", "*.txt"], &["skip/*"]);
    let list = g.generate_files_list(&vec![
        source("z.bin", b"z"),
        source("skip/a.bin", b"s"),
        source("a-b/x.txt", b"2"),
        source("notes.md", b"n"),
        source("a/x.txt", b"1"),
        source("a.txt", b"0"),
    ]);
    assert_eq!(paths(&list), strings(&["a/x.txt", "a-b/x.txt", "a.txt", "z.bin"]));
    let mut sorted = paths(&list);
    sorted.dedup();
    assert_eq!(sorted.len(), list.len());
}

#[test]
fn file_list_of_an_empty_tree() {
    let g = generator(&["*"], &[]);
    assert_eq!(g.generate_files_list(&Vec::new()), Vec::new());
    let none = generator(&["*.exe"], &[]);
    assert_eq!(none.generate_files_list(&vec![source("readme.txt", b"x")]), Vec::new());
}

#[test]
fn file_list_does_not_depend_on_the_order_given() {
    let g = generator(&[], &["*.tmp"]);
    let a = source("a/one", b"1");
    let b = source("b/two.tmp", b"2");
    let c = source("c/three", b"3");
    let first = g.generate_files_list(&vec![a.clone(), b.clone(), c.clone()]);
    let second = g.generate_files_list(&vec![c, b, a]);
    assert_eq!(first, second);
    assert_eq!(paths(&first), strings(&["a/one", "c/three"]));
}

#[test]
fn digest_of_a_file_does_not_depend_on_its_neighbours() {
    let g = generator(&[], &[]);
    let alone = g.generate_files_list(&vec![source("b", b"payload")]);
    let among = g.generate_files_list(&vec![
        source("a", b"before"),
        source("b", b"payload"),
        source("c", b"after"),
    ]);
    assert_eq!(alone[0], among[1]);
    assert_eq!(among[1].hash, blake3::hash(b"payload").to_hex().to_string());
    assert_ne!(among[1].hash, blake3::hash(b"beforepayload").to_hex().to_string());
}

#[test]
fn same_input_gives_the_same_file_list_under_a_new_version() {
    let tree = vec![source("windows-64/app.exe", b"MZ"), source("readme.txt", b"hi")];
    let first = GeneratorBuilder::default()
        .with_whitelist(strings(&["*"]))
        .version("1.0.0".to_string())
        .try_build()
        .unwrap()
        .generate_patch(&tree);
    let second = GeneratorBuilder::default()
        .with_whitelist(strings(&["*"]))
        .version("1.0.1".to_string())
        .depends_on(Some("1.0.0".to_string()))
        .try_build()
        .unwrap()
        .generate_patch(&tree);
    assert_eq!(first.files, second.files);
    assert_eq!(first.version, "1.0.0");
    assert_eq!(second.version, "1.0.1");
    assert_eq!(second.depends_on, Some("1.0.0".to_string()));
}

#[test]
fn invalid_whitelist_pattern_is_named() {
    let built = GeneratorBuilder::default()
        .with_whitelist(strings(&["*.rs", "[z-a]", "{"]))
        .with_blacklist(strings(&["[abc"]))
        .try_build();
    assert_eq!(built.err(), Some(BuildError::InvalidPattern("[z-a]".to_string())));
}

#[test]
fn invalid_blacklist_pattern_is_named() {
    let built = GeneratorBuilder::default()
        .with_whitelist(strings(&["*.rs"]))
        .with_blacklist(strings(&["*.tmp", "a{b", "[abc"]))
        .try_build();
    assert_eq!(built.err(), Some(BuildError::InvalidPattern("a{b".to_string())));
}

#[test]
fn build_of_sound_settings() {
    assert!(glob_is_sound("*.rs"));
    let g = GeneratorBuilder::default()
        .with_whitelist(strings(&["*.rs"]))
        .with_blacklist(strings(&["target/*"]))
        .version("2.0".to_string())
        .depends_on(None)
        .build();
    assert!(g.accepts("src/lib.rs"));
    assert!(!g.accepts("target/lib.rs"));
    assert!(!g.accepts("src/lib.c"));
}

fn glob_is_sound(pattern: &str) -> bool {
    globset::Glob::new(pattern).is_ok()
}

#[test]
fn later_settings_replace_earlier_ones() {
    let g = GeneratorBuilder::default()
        .with_whitelist(strings(&["*.exe"]))
        .with_whitelist(strings(&["*.txt"]))
        .with_blacklist(strings(&["*"]))
        .with_blacklist(Vec::new())
        .version("0.1".to_string())
        .version("0.2".to_string())
        .depends_on(Some("0.1".to_string()))
        .depends_on(None)
        .try_build()
        .unwrap();
    assert!(g.accepts("readme.txt"));
    assert!(!g.accepts("app.exe"));
    let patch = g.generate_patch(&Vec::new());
    assert_eq!(patch.version, "0.2");
    assert_eq!(patch.depends_on, None);
}

#[test]
fn patterns_that_do_not_compile_are_refused() {
    // More alternatives inside one another than the matcher accepts.
    let nested = format!("{}a{}", "{".repeat(300), "}".repeat(300));
    assert!(glob_is_sound(&nested));
    let built = GeneratorBuilder::default().with_blacklist(vec![nested]).try_build();
    assert_eq!(built.err(), Some(BuildError::CannotCompile));
}

#[test]
fn long_lists_and_long_patterns_are_built() {
    let many: Vec<String> = (0..300).map(|i| format!("dir{}/*", i)).collect();
    let g = GeneratorBuilder::default().with_whitelist(many).try_build().unwrap();
    assert!(g.accepts("dir299/file"));
    assert!(!g.accepts("dir300/file"));
    let long = "a".repeat(5000);
    let g = GeneratorBuilder::default().with_blacklist(vec![long.clone()]).try_build().unwrap();
    assert!(!g.accepts(&long));
    assert!(g.accepts("a"));
}

#[test]
fn pattern_nested_too_deep_is_refused() {
    let deepest = format!("{}a{}", "{".repeat(MAX_NESTING), "}".repeat(MAX_NESTING));
    let built = GeneratorBuilder::default().with_whitelist(vec![deepest]).try_build();
    assert_eq!(built.err(), Some(BuildError::CannotCompile));
    let too_deep = format!("{}a{}", "{".repeat(MAX_NESTING + 1), "}".repeat(MAX_NESTING + 1));
    let built = GeneratorBuilder::default()
        .with_whitelist(vec!["*.rs".to_string(), too_deep.clone(), "[".to_string()])
        .try_build();
    assert_eq!(built.err(), Some(BuildError::NestedTooDeep(too_deep)));
}

#[test]
fn alternatives_side_by_side_are_not_nested() {
    let flat = "{a,b}".repeat(3000);
    let g = GeneratorBuilder::default().with_blacklist(vec![flat]).try_build().unwrap();
    assert!(!g.accepts(&"ab".repeat(1500)));
    assert!(g.accepts(&"ab".repeat(1499)));
}

#[test]
fn braces_that_may_stay_open_count_as_nested() {
    // Behind a `[`, and right behind a backslash, a `}` may close nothing.
    let in_class = format!("[a]{}", "{a}".repeat(MAX_NESTING + 1));
    let built = GeneratorBuilder::default().with_blacklist(vec![in_class.clone()]).try_build();
    assert_eq!(built.err(), Some(BuildError::NestedTooDeep(in_class)));
    let escaped = "{\\}".repeat(MAX_NESTING + 1);
    let built = GeneratorBuilder::default().with_blacklist(vec![escaped.clone()]).try_build();
    assert_eq!(built.err(), Some(BuildError::NestedTooDeep(escaped)));
}

#[test]
fn first_fault_in_a_list_is_named() {
    let too_deep = "{".repeat(MAX_NESTING + 1);
    let built = GeneratorBuilder::default()
        .with_blacklist(vec!["[".to_string(), too_deep])
        .try_build();
    assert_eq!(built.err(), Some(BuildError::InvalidPattern("[".to_string())));
}

#[test]
fn set_too_large_for_the_tables_is_refused() {
    // 1024 patterns of 1025 bytes: 1024 * (1024 * 1025 + 1024 + 8) entries.
    let large: Vec<String> = (0..1024).map(|i| format!("{:04}{}", i, "a".repeat(1021))).collect();
    assert!(1024u64 * (1024 * 1025 + 1024 + 8) > MAX_TABLE_ENTRIES);
    let built = GeneratorBuilder::default().with_whitelist(large.clone()).try_build();
    assert_eq!(built.err(), Some(BuildError::SetTooLarge));
    // One byte less in each pattern, and the set fits.
    let fits: Vec<String> = large.iter().map(|p| p[..1022].to_string()).collect();
    assert!(1024u64 * (1024 * 1022 + 1024 + 8) <= MAX_TABLE_ENTRIES);
    let g = GeneratorBuilder::default().with_whitelist(fits.clone()).try_build().unwrap();
    assert!(g.accepts(&fits[7]));
}

#[test]
fn size_is_tested_before_the_patterns() {
    let mut large: Vec<String> = (0..1024).map(|i| format!("{:04}{}", i, "a".repeat(1021))).collect();
    large[0] = format!("[{}", "a".repeat(1024));
    let built = GeneratorBuilder::default().with_blacklist(large).try_build();
    assert_eq!(built.err(), Some(BuildError::SetTooLarge));
}

#[test]
fn whitelist_is_examined_before_the_blacklist() {
    let built = GeneratorBuilder::default()
        .with_blacklist(vec!["[".to_string()])
        .with_whitelist(vec!["{".repeat(MAX_NESTING + 1)])
        .try_build();
    assert_eq!(built.err(), Some(BuildError::NestedTooDeep("{".repeat(MAX_NESTING + 1))));
}

#[test]
fn settings_without_patterns_are_sound() {
    let g = GeneratorBuilder::default().version("1".to_string()).build();
    assert!(g.accepts("any/path"));
}

#[test]
fn paths_are_recorded_with_forward_slashes() {
    let g = GeneratorBuilder::default()
        .with_whitelist(strings(&["windows-64/*"]))
        .separator('\\')
        .try_build()
        .unwrap();
    let list = g.generate_files_list(&vec![
        source("windows-64\\bin\\app.exe", b"MZ"),
        source("linux-64\\app", b"ELF"),
        source("windows-64/readme.txt", b"hi"),
    ]);
    assert_eq!(paths(&list), strings(&["windows-64/bin/app.exe", "windows-64/readme.txt"]));
    assert!(list.iter().all(|f| !f.path.contains('\\')));
    let chosen = g.select_paths(&strings(&["windows-64\\a", "other\\b", "windows-64\\c\\d"]));
    assert_eq!(chosen, strings(&["windows-64/a", "windows-64/c/d"]));
}

#[test]
fn forward_slash_separator_keeps_paths_as_given() {
    let g = generator(&[], &[]);
    let list = g.generate_files_list(&vec![source("a\\b/c", b"x")]);
    assert_eq!(paths(&list), strings(&["a\\b/c"]));
    assert_eq!(g.select_paths(&strings(&["a\\b/c"])), strings(&["a\\b/c"]));
}

#[test]
fn recorded_hashes_are_hexadecimal() {
    let g = generator(&[], &[]);
    let patch = g.generate_patch(&vec![source("a", b"1"), source("b", b""), source("c", b"333")]);
    assert_eq!(patch.files.len(), 3);
    for file in &patch.files {
        assert_eq!(file.hash.len(), 64);
        assert!(file.hash.chars().all(|c| c.is_ascii_digit() || ('a'..='f').contains(&c)));
    }
}
