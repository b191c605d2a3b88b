//! Unit tests for the verified building blocks.

use epub2txt::content::{manifest_lookup, resolve_spine, ContentEntry};
use epub2txt::nav::resolve_nav;
use epub2txt::refres::resolve_ref;
use epub2txt::strutil::{parent_dir, parse_decimal, starts_with_str, str_eq, trim_str};
use epub2txt::EpubError;

#[test]
fn resolve_percent_encoded_reference() {
    assert_eq!(
        resolve_ref("OEBPS", "chapter%201.xhtml"),
        Some("OEBPS/chapter 1.xhtml".to_string())
    );
}

#[test]
fn resolve_plain_reference() {
    assert_eq!(resolve_ref("OEBPS", "c1.xhtml"), Some("OEBPS/c1.xhtml".to_string()));
}

#[test]
fn resolve_under_empty_root() {
    assert_eq!(resolve_ref("", "c1.xhtml"), Some("c1.xhtml".to_string()));
}

#[test]
fn resolve_strips_leading_separators() {
    assert_eq!(resolve_ref("OEBPS", "/c1.xhtml"), Some("OEBPS/c1.xhtml".to_string()));
    assert_eq!(resolve_ref("OEBPS", "//c1.xhtml"), Some("OEBPS/c1.xhtml".to_string()));
}

#[test]
fn resolve_decodes_multibyte_escapes() {
    assert_eq!(resolve_ref("", "caf%C3%A9.xhtml"), Some("caf\u{e9}.xhtml".to_string()));
}

#[test]
fn resolve_keeps_bare_percent() {
    assert_eq!(resolve_ref("", "50%.xhtml"), Some("50%.xhtml".to_string()));
}

#[test]
fn resolve_rejects_bytes_that_are_no_utf8() {
    assert_eq!(resolve_ref("OEBPS", "bad%FFname"), None);
}

#[test]
fn parse_decimal_values() {
    assert_eq!(parse_decimal("0"), Some(0));
    assert_eq!(parse_decimal("12"), Some(12));
    assert_eq!(parse_decimal("0012"), Some(12));
    assert_eq!(parse_decimal("4294967295"), Some(u32::MAX));
}

#[test]
fn parse_decimal_failures() {
    assert_eq!(parse_decimal(""), None);
    assert_eq!(parse_decimal("a1"), None);
    assert_eq!(parse_decimal("1a"), None);
    assert_eq!(parse_decimal("-1"), None);
    assert_eq!(parse_decimal("4294967296"), None);
    assert_eq!(parse_decimal("99999999999999999999"), None);
}

#[test]
fn trim_removes_surrounding_whitespace() {
    assert_eq!(trim_str("  a b \n"), "a b");
    assert_eq!(trim_str("\t\r\n"), "");
    assert_eq!(trim_str("x"), "x");
    assert_eq!(trim_str(""), "");
}

#[test]
fn starts_with_prefixes() {
    assert!(starts_with_str("hello world", "hello"));
    assert!(starts_with_str("hello", ""));
    assert!(!starts_with_str("hello", "help"));
    assert!(!starts_with_str("he", "hello"));
}

#[test]
fn str_eq_compares_contents() {
    assert!(str_eq("abc", "abc"));
    assert!(!str_eq("abc", "abd"));
    assert!(!str_eq("abc", "ab"));
}

#[test]
fn parent_dir_of_paths() {
    assert_eq!(parent_dir("OEBPS/content.opf"), "OEBPS");
    assert_eq!(parent_dir("a/b/c.opf"), "a/b");
    assert_eq!(parent_dir("content.opf"), "");
}

#[test]
fn manifest_lookup_latest_declaration_wins() {
    let items = vec![
        (Some("c1".to_string()), Some("first.xhtml".to_string())),
        (Some("c1".to_string()), Some("second.xhtml".to_string())),
    ];
    assert_eq!(manifest_lookup(&items, "c1"), Some("second.xhtml".to_string()));
}

#[test]
fn manifest_lookup_skips_incomplete_items() {
    let items = vec![
        (Some("c1".to_string()), Some("kept.xhtml".to_string())),
        (None, Some("no-id.xhtml".to_string())),
        (Some("c1".to_string()), None),
    ];
    assert_eq!(manifest_lookup(&items, "c1"), Some("kept.xhtml".to_string()));
    assert_eq!(manifest_lookup(&items, "c2"), None);
}

#[test]
fn resolve_spine_skips_and_orders() {
    let items = vec![
        (Some("a".to_string()), Some("a.xhtml".to_string())),
        (Some("b".to_string()), Some("b.xhtml".to_string())),
    ];
    let refs = vec![
        Some("b".to_string()),
        None,
        Some("missing".to_string()),
        Some("a".to_string()),
    ];
    let entries = resolve_spine(&items, &refs, "OEBPS");
    assert_eq!(entries.len(), 2);
    assert_eq!(entries[0].path, "OEBPS/b.xhtml");
    assert_eq!(entries[0].order, 0);
    assert_eq!(entries[0].label, "");
    assert_eq!(entries[1].path, "OEBPS/a.xhtml");
    assert_eq!(entries[1].order, 1);
}

fn point(order: &str, label: &str, src: &str) -> (Option<String>, String, Option<String>) {
    (Some(order.to_string()), label.to_string(), Some(src.to_string()))
}

#[test]
fn resolve_nav_sorts_by_play_order() {
    let points = vec![point("3", "c", "c.xhtml"), point("1", "a", "a.xhtml"), point(
        "2",
        "b",
        "b.xhtml",
    )];
    let entries = resolve_nav(&points, "");
    assert_eq!(entries.len(), 3);
    assert_eq!(entries[0].path, "a.xhtml");
    assert_eq!(entries[1].path, "b.xhtml");
    assert_eq!(entries[2].path, "c.xhtml");
}

#[test]
fn resolve_nav_drops_duplicate_paths_keeping_lower_order() {
    let points = vec![point("5", "later", "same.xhtml"), point("2", "early", "same.xhtml")];
    let entries = resolve_nav(&points, "");
    assert_eq!(entries.len(), 1);
    assert_eq!(entries[0].order, 2);
    assert_eq!(entries[0].label, "early");
}

#[test]
fn resolve_nav_equal_orders_keep_document_order() {
    let points = vec![point("1", "first", "a.xhtml"), point("1", "second", "b.xhtml")];
    let entries = resolve_nav(&points, "");
    assert_eq!(entries.len(), 2);
    assert_eq!(entries[0].path, "a.xhtml");
    assert_eq!(entries[1].path, "b.xhtml");
}

#[test]
fn resolve_nav_equal_order_same_path_keeps_first() {
    let points = vec![point("1", "first", "same.xhtml"), point("1", "second", "same.xhtml")];
    let entries = resolve_nav(&points, "");
    assert_eq!(entries.len(), 1);
    assert_eq!(entries[0].label, "first");
}

#[test]
fn resolve_nav_skips_bad_points() {
    let points = vec![
        (None, "no order".to_string(), Some("a.xhtml".to_string())),
        (Some("x".to_string()), "bad order".to_string(), Some("b.xhtml".to_string())),
        (Some("1".to_string()), "no src".to_string(), None),
        point("4", "ok", "keep.xhtml"),
    ];
    let entries = resolve_nav(&points, "");
    assert_eq!(entries.len(), 1);
    assert_eq!(entries[0].path, "keep.xhtml");
    assert_eq!(entries[0].order, 4);
}

#[test]
fn content_entry_duplicate_copies_fields() {
    let e = ContentEntry { order: 3, label: "l".to_string(), path: "p".to_string() };
    let d = e.duplicate();
    assert_eq!(d.order, 3);
    assert_eq!(d.label, "l");
    assert_eq!(d.path, "p");
}

#[test]
fn error_messages() {
    assert_eq!(EpubError::NoRootfile.message(), "No found <rootfile>.");
    assert_eq!(EpubError::NoFullPath.message(), "No `full-path` in container.");
    assert_eq!(EpubError::NoTitle.message(), "No found <dc:title>");
    assert_eq!(EpubError::EmptySpine.message(), "spine list is empty!");
    assert_eq!(EpubError::EmptyNav.message(), "nav list is empty!");
}
