use rok::casing::{to_camel_case, to_kebab_case, to_pascal_case, to_screaming_snake, to_snake_case, split_words, capitalize};
use rok::paths::{normalize, stem_ext, with_extension};
use std::path::PathBuf;

#[test]
fn normalize_removes_dots() {
    assert_eq!(PathBuf::from(normalize("./foo/../bar/./baz")), PathBuf::from("bar/baz"));
}

#[test]
fn normalize_absolute() {
    assert_eq!(PathBuf::from(normalize("/a/b/../c")), PathBuf::from("/a/c"));
}

#[test]
fn normalize_no_above_root() {
    assert_eq!(PathBuf::from(normalize("/..")), PathBuf::from("/"));
}

#[test]
fn stem_ext_splits_correctly() {
    assert_eq!(stem_ext("main.rs"), ("main".into(), "rs".into()));
    assert_eq!(stem_ext("no_ext"), ("no_ext".into(), "".into()));
}

#[test]
fn path_normalize() {
    assert_eq!(PathBuf::from(normalize("a/b/../c/./d")), PathBuf::from("a/c/d"));
}

#[test]
fn snake_to_camel() {
    assert_eq!(to_camel_case("hello_world"), "helloWorld");
    assert_eq!(to_camel_case("foo_bar_baz"), "fooBarBaz");
}

#[test]
fn snake_to_pascal() {
    assert_eq!(to_pascal_case("hello_world"), "HelloWorld");
}

#[test]
fn camel_to_snake() {
    assert_eq!(to_snake_case("helloWorld"), "hello_world");
    assert_eq!(to_snake_case("FooBarBaz"), "foo_bar_baz");
}

#[test]
fn camel_to_kebab() {
    assert_eq!(to_kebab_case("helloWorld"), "hello-world");
}

#[test]
fn screaming() {
    assert_eq!(to_screaming_snake("hello_world"), "HELLO_WORLD");
}

#[test]
fn passthrough_unchanged() {
    assert_eq!(to_snake_case("already_snake"), "already_snake");
    assert_eq!(to_pascal_case("AlreadyPascal"), "AlreadyPascal");
}

#[test]
fn string_conversions() {
    assert_eq!(to_camel_case("hello_world"), "helloWorld");
    assert_eq!(to_pascal_case("hello_world"), "HelloWorld");
    assert_eq!(to_snake_case("helloWorld"), "hello_world");
    assert_eq!(to_kebab_case("HelloWorld"), "hello-world");
    assert_eq!(to_screaming_snake("helloWorld"), "HELLO_WORLD");
}

// ── further cases ────────────────────────────────────────────────────────────

#[test]
fn split_words_boundaries() {
    assert_eq!(split_words("HTTPServer"), vec!["http", "server"]);
    assert_eq!(split_words("  a--b__c "), vec!["a", "b", "c"]);
    assert!(split_words("_- ").is_empty());
    assert_eq!(split_words("parseJSONData"), vec!["parse", "json", "data"]);
    assert_eq!(split_words("Hello World"), vec!["hello", "world"]);
    assert_eq!(capitalize("hELLO"), "Hello");
    assert_eq!(capitalize(""), "");
}

#[test]
fn path_edge_cases() {
    assert_eq!(normalize("../../a"), "../../a");
    assert_eq!(PathBuf::from(normalize("../a")), PathBuf::from("../a"));
    assert_eq!(PathBuf::from(normalize("a/../../b")), PathBuf::from("../b"));
    assert_eq!(normalize("a/b/../../.."), "..");
    assert_eq!(normalize("/../a"), "/a");
    assert_eq!(normalize("/a/../../b"), "/b");
    assert_eq!(normalize(""), "");
    assert_eq!(normalize("a//b/"), "a/b");
    assert_eq!(stem_ext(".bashrc"), (".bashrc".into(), "".into()));
    assert_eq!(stem_ext("a/b.tar.gz"), ("b.tar".into(), "gz".into()));
    assert_eq!(stem_ext("a/.."), ("".into(), "".into()));
    assert_eq!(stem_ext("dir/file.txt/."), ("file".into(), "txt".into()));
}

#[test]
fn with_extension_matches_std() {
    for (p, e) in [
        ("a/b.txt", "rs"),
        ("a/b", "rs"),
        ("a/b.txt", ""),
        (".bashrc", "bak"),
        ("a/..", "x"),
        ("/", "x"),
        ("a.b.c", "d"),
        ("dir/file.txt/.", "md"),
        ("x/y/", "z"),
        ("", "q"),
    ] {
        let ours = with_extension(p, e);
        let std = std::path::Path::new(p).with_extension(e);
        assert_eq!(PathBuf::from(ours), std, "{p} {e}");
    }
    for p in ["main.rs", "no_ext", ".bashrc", "a/b.tar.gz", "a/..", "/", "x/y/", "dir/f.txt/.", "...", "a."] {
        let (s, e) = stem_ext(p);
        let path = std::path::Path::new(p);
        assert_eq!(s, path.file_stem().and_then(|x| x.to_str()).unwrap_or(""), "{p}");
        assert_eq!(e, path.extension().and_then(|x| x.to_str()).unwrap_or(""), "{p}");
        let n = normalize(p);
        assert!(!n.split('/').any(|c| c == "." || c == ".."), "{p}");
    }
}

#[test]
fn normalizing_twice_changes_nothing() {
    for p in ["./foo/../bar/./baz", "/a/b/../c", "/..", "a/b/../c/./d", "../../x", "", "/", "a//b/", "a/../../b/..", ".."] {
        let once = normalize(p);
        assert_eq!(normalize(&once), once);
    }
}
