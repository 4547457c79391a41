use glossa::db::{keep_parsed, lookup_key, prefix_range};
use glossa::entry::Entry;
use glossa::text::{contains, is_whitespace, join, str_eq, str_le, trim};

fn entry(word: &str) -> Entry {
    Entry {
        word: word.to_string(),
        lang_code: "en".to_string(),
        pos: "noun".to_string(),
        etymology_text: None,
        senses: vec![],
        sounds: vec![],
        tags: vec![],
        forms: vec![],
    }
}

#[test]
fn trim_matches_str_trim() {
    for s in ["", "  ", " a ", "\tword\n", "\u{3000}x\u{2003}", "a b", "\u{85}y"] {
        assert_eq!(trim(s), s.trim());
    }
    assert!(is_whitespace('\u{2028}'));
    assert!(!is_whitespace('x'));
}

#[test]
fn string_helpers() {
    assert!(str_eq("abc", "abc"));
    assert!(!str_eq("abc", "abd"));
    assert!(!str_eq("ab", "abc"));
    assert!(str_le("ab", "abc"));
    assert!(str_le("abc", "abd"));
    assert!(!str_le("b", "abc"));
    assert!(str_le("", ""));
    assert!(contains("go to settings", "set"));
    assert!(contains("abc", ""));
    assert!(!contains("abc", "abcd"));
    assert_eq!(glossa::text::concat("foo", "bar"), "foobar");
    let v = vec!["a".to_string(), "b".to_string(), "c".to_string()];
    assert_eq!(join(&v, "; "), "a; b; c");
    assert_eq!(join(&Vec::new(), "; "), "");
}

#[test]
fn lookup_key_is_trimmed_and_lowercased() {
    assert_eq!(lookup_key("  DOG "), "dog");
    assert_eq!(lookup_key("Hund"), "hund");
    assert_eq!(lookup_key("dog"), lookup_key("DOG"));
}

fn in_range(lower: &str, upper: &Option<String>, w: &str) -> bool {
    lower <= w && upper.as_ref().map_or(true, |u| w < u.as_str())
}

#[test]
fn prefix_range_holds_exactly_the_words_with_the_prefix() {
    assert!(prefix_range("").is_none());
    assert!(prefix_range("   ").is_none());
    let r = prefix_range("  Ha").unwrap();
    assert_eq!(r.lower, "ha");
    assert_eq!(r.upper.as_deref(), Some("hb"));
    for w in ["ha", "hand", "haus", "ha\u{10FFFE}z", "ha\u{10FFFF}", "ha\u{10FFFF}x"] {
        assert!(in_range(&r.lower, &r.upper, w), "{w:?}");
    }
    for w in ["h", "hb", "gz", "hb\u{0}"] {
        assert!(!in_range(&r.lower, &r.upper, w), "{w:?}");
    }
}

#[test]
fn prefix_range_steps_over_the_largest_code_point_and_the_surrogates() {
    let r = prefix_range("a\u{10FFFF}").unwrap();
    assert_eq!(r.upper.as_deref(), Some("b"));
    assert!(in_range(&r.lower, &r.upper, "a\u{10FFFF}\u{10FFFF}"));
    assert!(!in_range(&r.lower, &r.upper, "b"));
    let r = prefix_range("x\u{D7FF}").unwrap();
    assert_eq!(r.upper.as_deref(), Some("x\u{E000}"));
    let r = prefix_range("\u{10FFFF}").unwrap();
    assert!(r.upper.is_none());
    assert!(in_range(&r.lower, &r.upper, "\u{10FFFF}abc"));
}

#[test]
fn unparsable_rows_are_skipped() {
    let rows = vec![Some(entry("a")), None, Some(entry("b")), None];
    let kept = keep_parsed(rows);
    assert_eq!(kept.len(), 2);
    assert_eq!(kept[0].word, "a");
    assert_eq!(kept[1].word, "b");
    assert!(keep_parsed(vec![None]).is_empty());
}
