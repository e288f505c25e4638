use carve::text::{
    char_is_whitespace, concat3, concat_all, contains, i64_to_decimal, pairs_of, replace, split_char,
    split_whitespace, starts_with, str_eq, str_eq_ignore_ascii_case, trim, u64_to_decimal,
};

#[test]
fn trim_removes_unicode_whitespace_at_both_ends() {
    assert_eq!(trim("  hello world \n\t"), "hello world");
    assert_eq!(trim("\u{3000}x\u{a0}"), "x");
    assert_eq!(trim("   "), "");
    assert_eq!(trim(""), "");
}

#[test]
fn whitespace_is_the_unicode_white_space_property() {
    for c in [' ', '\t', '\n', '\r', '\u{b}', '\u{c}', '\u{85}', '\u{a0}', '\u{1680}', '\u{2000}', '\u{200a}',
        '\u{2028}', '\u{2029}', '\u{202f}', '\u{205f}', '\u{3000}'] {
        assert!(char_is_whitespace(c), "{:?}", c);
        assert_eq!(char_is_whitespace(c), c.is_whitespace());
    }
    for c in ['a', '0', '\u{200b}', '\u{180e}', '_'] {
        assert!(!char_is_whitespace(c));
        assert_eq!(char_is_whitespace(c), c.is_whitespace());
    }
}

#[test]
fn split_keeps_empty_pieces() {
    assert_eq!(split_char("a.b.c", '.'), vec!["a", "b", "c"]);
    assert_eq!(split_char("a..b.", '.'), vec!["a", "", "b", ""]);
    assert_eq!(split_char("", '.'), vec![""]);
}

#[test]
fn split_whitespace_drops_empty_tokens() {
    assert_eq!(split_whitespace("  inet 10.0.0.5/24  brd x\n"), vec!["inet", "10.0.0.5/24", "brd", "x"]);
    assert_eq!(split_whitespace("   "), Vec::<String>::new());
    assert_eq!(split_whitespace("one"), vec!["one"]);
}

#[test]
fn replace_replaces_every_occurrence_left_to_right() {
    assert_eq!(replace("a&lt;b&lt;c", "&lt;", "<"), "a<b<c");
    assert_eq!(replace("aaa", "aa", "b"), "ba");
    assert_eq!(replace("none", "x", "y"), "none");
}

#[test]
fn contains_and_prefixes() {
    assert!(contains("Support ticket 3 not found", "not found"));
    assert!(!contains("found", "not found"));
    assert!(starts_with("nameserver 1.1.1.1", "nameserver"));
    assert!(!starts_with("name", "nameserver"));
    assert!(str_eq("abc", "abc"));
    assert!(!str_eq("abc", "abd"));
    assert!(str_eq_ignore_ascii_case("Red-Team", "rED-tEAM"));
    assert!(!str_eq_ignore_ascii_case("Red", "Reds"));
}

#[test]
fn concatenation() {
    assert_eq!(concat3("a", "b", "c"), "abc");
    assert_eq!(concat_all(&vec!["x", "", "yz", "!"]), "xyz!");
}

#[test]
fn decimal_rendering() {
    assert_eq!(u64_to_decimal(0), "0");
    assert_eq!(u64_to_decimal(1234567890), "1234567890");
    assert_eq!(u64_to_decimal(u64::MAX), u64::MAX.to_string());
    assert_eq!(i64_to_decimal(-42), "-42");
    assert_eq!(i64_to_decimal(i64::MIN), i64::MIN.to_string());
    assert_eq!(i64_to_decimal(7), "7");
}

#[test]
fn pairs_of_groups_a_flat_list() {
    let flat: Vec<String> = vec!["a", "1", "b", "2", "c"].into_iter().map(String::from).collect();
    assert_eq!(
        pairs_of(&flat),
        vec![("a".to_string(), "1".to_string()), ("b".to_string(), "2".to_string())]
    );
    assert_eq!(pairs_of(&Vec::new()), Vec::<(String, String)>::new());
}
