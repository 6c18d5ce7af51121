use scratchsmith::paths::{file_name_of, is_absolute, join_path, parent_of, starts_with_path, strip_root_of};
use scratchsmith::text::{
    decimal_string, join_strings, pad_left_str, replace, rsplit_once_char, sorted_set, split_once_char,
    to_ascii_lowercase, trim_end_str, trim_str,
};

#[test]
fn path_joining_follows_pathbuf_push() {
    assert_eq!(join_path("/a", "b"), "/a/b");
    assert_eq!(join_path("/a/", "b"), "/a/b");
    assert_eq!(join_path("/a", "/b"), "/b");
    assert_eq!(join_path("", "b"), "b");
}

#[test]
fn parents_and_file_names_ignore_trailing_slashes() {
    assert_eq!(parent_of("/usr/lib/x.so").as_deref(), Some("/usr/lib"));
    assert_eq!(parent_of("/usr/lib/").as_deref(), Some("/usr"));
    assert_eq!(parent_of("/x").as_deref(), Some("/"));
    assert_eq!(parent_of("/"), None);
    assert_eq!(file_name_of("/usr/lib/x.so").as_deref(), Some("x.so"));
    assert_eq!(file_name_of("/usr/lib/").as_deref(), Some("lib"));
    assert_eq!(file_name_of("/"), None);
}

#[test]
fn prefixes_respect_component_boundaries() {
    assert!(starts_with_path("/tmp/root/x", "/tmp/root"));
    assert!(starts_with_path("/tmp/root", "/tmp/root/"));
    assert!(!starts_with_path("/tmp/rootish", "/tmp/root"));
    assert!(starts_with_path("/anything", "/"));
    assert_eq!(strip_root_of("//a/b").as_deref(), Some("a/b"));
    assert_eq!(strip_root_of("a/b"), None);
    assert!(is_absolute("/a") && !is_absolute("a"));
}

#[test]
fn text_helpers_follow_std() {
    assert_eq!(trim_str("  a b \t\n"), "a b");
    assert_eq!(trim_end_str(" a \n\n"), " a");
    assert_eq!(to_ascii_lowercase("MiXeD-Ä"), "mixed-Ä");
    assert_eq!(replace("aXbXc", "X", "--"), "a--b--c");
    assert_eq!(replace("aaa", "aa", "b"), "ba");
    assert_eq!(split_once_char("k=v=w", '='), Some(("k".to_string(), "v=w".to_string())));
    assert_eq!(rsplit_once_char("k=v=w", '='), Some(("k=v".to_string(), "w".to_string())));
    assert_eq!(decimal_string(0), "0");
    assert_eq!(decimal_string(u64::MAX), u64::MAX.to_string());
    assert_eq!(pad_left_str("42", 5), "   42");
    assert_eq!(pad_left_str("123456", 3), "123456");
    assert_eq!(join_strings(&vec!["a".into(), "b".into()], ", "), "a, b");
}

#[test]
fn sorted_sets_are_strictly_increasing() {
    let v = vec!["b".to_string(), "a".to_string(), "b".to_string(), "a/x".to_string(), "a-y".to_string()];
    assert_eq!(sorted_set(&v, false), vec!["a", "a-y", "a/x", "b"]);
    assert_eq!(sorted_set(&v, true), vec!["a", "a/x", "a-y", "b"]);
}
