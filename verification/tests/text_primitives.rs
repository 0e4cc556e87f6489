use codex_connector_core::decimal::{parse_count, to_numeral};
use codex_connector_core::order::sort_distinct;
use codex_connector_core::text::{bounded_to, chars_of, contains_text, string_of, trimmed};
use codex_connector_core::text_map::TextMap;

#[test]
fn strings_are_sorted_by_their_bytes() {
    let words = vec!["b".to_string(), "a".to_string(), "\u{e9}".to_string(), "b".to_string()];
    assert_eq!(
        sort_distinct(words),
        vec!["a".to_string(), "b".to_string(), "\u{e9}".to_string()]
    );
}

#[test]
fn numerals_read_back() {
    for number in [0usize, 7, 10, 120, 4096, usize::MAX] {
        assert_eq!(to_numeral(number), number.to_string());
        assert_eq!(parse_count(&to_numeral(number)), Some(number));
    }
    assert_eq!(parse_count("+7"), Some(7));
    assert_eq!(parse_count("+"), None);
    assert_eq!(parse_count("007"), Some(7));
}

#[test]
fn text_is_cut_and_trimmed_by_characters() {
    assert_eq!(bounded_to("h\u{e9}llo", 3), "h\u{e9}l\u{2026}");
    assert_eq!(bounded_to("h\u{e9}llo", 5), "h\u{e9}llo");
    assert_eq!(trimmed(" \u{a0}\u{3000}a b\t\n"), "a b");
    assert_eq!(trimmed("  "), "");
    let chars = chars_of("\u{e9}ab");
    assert_eq!(string_of(&chars, 1, 3), "ab");
    assert!(contains_text(&chars, "ab"));
    assert!(contains_text(&chars, ""));
    assert!(!contains_text(&chars, "abc"));
}

#[test]
fn maps_keep_their_keys_in_order() {
    let mut map = TextMap::new();
    map.insert("b".to_string(), "2".to_string());
    map.insert("a".to_string(), "1".to_string());
    map.insert("b".to_string(), "3".to_string());
    assert_eq!(map.len(), 2);
    assert_eq!(map.key_at(0), "a");
    assert_eq!(map.value_at(1), "3");
    assert_eq!(map.get("b"), Some(&"3".to_string()));
    assert_eq!(map.get("c"), None);
    map.clear();
    assert_eq!(map.len(), 0);
}
