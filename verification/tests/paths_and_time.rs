use megamaid::clock::{parse_rfc3339_secs, rfc3339_from_secs};
use megamaid::paths::{basename, extension, join_path, rel_path, strict_descendant};

#[test]
fn rfc3339_formatting_and_parsing_agree() {
    // 2025-11-19T12:00:00 UTC
    let secs: i64 = 1763553600;
    let text = rfc3339_from_secs(secs);

    assert!(text.starts_with("2025-11-19T12:00:00"));
    assert_eq!(parse_rfc3339_secs(&text), Some(secs));
}

#[test]
fn rfc3339_parser_rejects_garbage() {
    assert_eq!(parse_rfc3339_secs("yesterday-ish"), None);
    assert_eq!(parse_rfc3339_secs(""), None);
}

#[test]
fn rfc3339_parser_normalizes_offsets() {
    // The same instant written with a two-hour offset.
    let secs: i64 = 1763553600;
    assert_eq!(parse_rfc3339_secs("2025-11-19T14:00:00+02:00"), Some(secs));
}

#[test]
fn basename_and_extension_follow_the_last_separator() {
    assert_eq!(basename("/a/b/c.txt"), "c.txt");
    assert_eq!(basename("plain"), "plain");
    assert_eq!(extension("c.txt").as_deref(), Some("txt"));
    assert_eq!(extension("archive.tar.gz").as_deref(), Some("gz"));
    assert_eq!(extension(".hidden"), None);
    assert_eq!(extension("noext"), None);
}

#[test]
fn descendant_test_respects_component_boundaries() {
    assert!(strict_descendant("/a/b/c", "/a/b"));
    assert!(strict_descendant("/a/b", "/a"));
    assert!(!strict_descendant("/a/bc", "/a/b"));
    assert!(!strict_descendant("/a/b", "/a/b"));
    assert!(!strict_descendant("/a", "/a/b"));
}

#[test]
fn join_and_rel_are_inverse_on_descendants() {
    assert_eq!(join_path("/base", "sub/file"), "/base/sub/file");
    assert_eq!(join_path("/base", "."), "/base");
    assert_eq!(rel_path("/base/sub/file", "/base"), "sub/file");
    assert_eq!(rel_path("/base", "/base"), ".");
    assert_eq!(rel_path("/elsewhere/x", "/base"), "/elsewhere/x");
    assert_eq!(rel_path("/base/", "/base"), ".");
}
