use nc_backup_lib::text::{same_path_text, contains_text, decimal_text, join_path, parse_u64, same_text};

#[test]
fn text_helpers() {
    assert!(same_text("abc", "abc"));
    assert!(!same_text("abc", "abd"));
    assert!(contains_text("currently enabled", "enabled"));
    assert!(!contains_text("enable", "enabled"));
    assert!(contains_text("x", ""));
    assert_eq!(decimal_text(0), "0");
    assert_eq!(decimal_text(1234567890), "1234567890");
    assert_eq!(join_path("", "a"), "a");
    assert_eq!(join_path("/a", "b/c"), "/a/b/c");
    assert_eq!(join_path("/a/", "b"), "/a/b");
}

#[test]
fn decimal_parsing() {
    assert_eq!(parse_u64("42"), Some(42));
    assert_eq!(parse_u64("+7"), Some(7));
    assert_eq!(parse_u64("18446744073709551615"), Some(u64::MAX));
    assert_eq!(parse_u64("18446744073709551616"), None);
    assert_eq!(parse_u64(""), None);
    assert_eq!(parse_u64("+"), None);
    assert_eq!(parse_u64("-1"), None);
    assert_eq!(parse_u64("1a"), None);
}

#[test]
fn paths_compare_by_components() {
    assert!(same_path_text("/data/", "/data"));
    assert!(same_path_text("/a//b/./c", "/a/b/c"));
    assert!(!same_path_text("/a/b", "a/b"));
    assert!(!same_path_text("./a", "a"));
    assert!(same_path_text("a/.", "a"));
    assert!(!same_path_text("/a/../b", "/b"));
    assert!(!same_path_text("/ab", "/a/b"));
}
