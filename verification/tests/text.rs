use handy::string_map::StringMap;
use handy::text::{
    concat3, decimal_i128, is_blank, is_white_space, join, same_text, split, strip_prefixes,
    strip_suffixes, trim,
};

#[test]
fn white_space_is_what_unicode_says() {
    for c in char::MIN..=char::MAX {
        assert_eq!(is_white_space(c), c.is_whitespace(), "{c:?}");
    }
}

#[test]
fn trimming_takes_white_space_from_both_ends() {
    for s in [
        "", " ", "a", " a ", "\t\n a b \u{a0}", "\u{3000}x\u{2003}", "ü ", "  \u{200b} ",
    ] {
        assert_eq!(trim(s), s.trim());
        assert_eq!(is_blank(s), s.trim().is_empty());
    }
}

#[test]
fn splitting_and_joining_undo_each_other() {
    for s in ["", "+", "a", "a+b", "+a++b+", "ctrl+ü+x"] {
        let pieces = split(s, '+');
        let expected: Vec<&str> = s.split('+').collect();
        assert_eq!(pieces, expected);
        assert_eq!(join(&pieces, "+"), s);
    }
    assert_eq!(join(&vec![], "+"), "");
    assert_eq!(join(&vec!["a".to_string(), "b".to_string()], ", "), "a, b");
}

#[test]
fn affixes_are_stripped_for_as_long_as_they_are_there() {
    for s in ["left left a", "left", "left ", "xleft ", "", "left left "] {
        assert_eq!(strip_prefixes(s, "left "), s.trim_start_matches("left "));
    }
    for s in ["a_left_left", "_left", "left", "", "a_left_"] {
        assert_eq!(strip_suffixes(s, "_left"), s.trim_end_matches("_left"));
    }
    assert_eq!(strip_prefixes("abc", ""), "abc");
    assert_eq!(strip_suffixes("abc", ""), "abc");
}

#[test]
fn numbers_are_written_in_decimal() {
    for n in [0, 7, 10, 99, 1_700_000_000_123, -1, -10, i128::MAX, i128::MIN] {
        assert_eq!(decimal_i128(n), n.to_string());
    }
}

#[test]
fn texts_are_compared_and_joined() {
    assert!(same_text("", ""));
    assert!(same_text("ü", "ü"));
    assert!(!same_text("a", "A"));
    assert!(!same_text("a", "ab"));
    assert_eq!(concat3("a", "", "c"), "ac");
    assert_eq!(concat3("Provider '", "x", "' not found"), "Provider 'x' not found");
}

#[test]
fn a_map_finds_what_was_inserted() {
    let mut map: StringMap<u32> = StringMap::new();
    assert_eq!(map.len(), 0);
    assert_eq!(map.get("a"), None);
    map.insert("a".to_string(), 1);
    map.insert("b".to_string(), 2);
    map.insert("a".to_string(), 3);
    assert_eq!(map.len(), 2);
    assert_eq!(map.get("a"), Some(&3));
    assert_eq!(map.get("b"), Some(&2));
    assert_eq!(map.get("c"), None);
    assert_eq!((map.key_at(0).as_str(), *map.value_at(0)), ("a", 3));
    assert_eq!((map.key_at(1).as_str(), *map.value_at(1)), ("b", 2));
}
