use murdoch_charsets::text::{holds_string, holds_text, same_text};

#[test]
fn same_text_equal_strings() {
    assert!(same_text("UTF-8", "UTF-8"));
    assert!(same_text("", ""));
}

#[test]
fn same_text_differs_in_one_byte() {
    assert!(!same_text("UTF-8", "UTF-9"));
    assert!(!same_text("UTF-8", "UTF_8"));
}

#[test]
fn same_text_differs_in_length() {
    assert!(!same_text("UTF-8", "UTF-88"));
    assert!(!same_text("UTF-8", ""));
    assert!(!same_text("", "U"));
}

#[test]
fn same_text_is_case_sensitive() {
    assert!(!same_text("utf-8", "UTF-8"));
}

#[test]
fn same_text_beyond_ascii() {
    assert!(same_text("caf\u{e9}", "caf\u{e9}"));
    assert!(!same_text("caf\u{e9}", "cafe"));
    assert!(!same_text("\u{e9}", "\u{c9}"));
}

#[test]
fn holds_text_finds_each_item() {
    let items = ["UTF-8", "UTF8", "UTF_8"];
    assert!(holds_text(&items, "UTF-8"));
    assert!(holds_text(&items, "UTF8"));
    assert!(holds_text(&items, "UTF_8"));
}

#[test]
fn holds_text_misses_other_text() {
    let items = ["UTF-8", "UTF8", "UTF_8"];
    assert!(!holds_text(&items, "UTF-9"));
    assert!(!holds_text(&items, "utf-8"));
    assert!(!holds_text(&items, ""));
}

#[test]
fn holds_text_in_empty_list() {
    let items: [&str; 0] = [];
    assert!(!holds_text(&items, "UTF-8"));
    assert!(!holds_text(&items, ""));
}

#[test]
fn holds_string_finds_and_misses() {
    let items = vec!["LATIN1".to_string(), "L1".to_string()];
    assert!(holds_string(&items, "L1"));
    assert!(holds_string(&items, "LATIN1"));
    assert!(!holds_string(&items, "l1"));
    assert!(!holds_string(&Vec::new(), "L1"));
}
