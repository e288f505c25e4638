use carve::random::{
    generate_alphabetic_string, generate_alphanumeric_string, generate_from_charset, generate_hex_string,
    generate_join_code, generate_lowercase_string, hex_string_from_bytes, join_code_from, string_from_picks,
    JOIN_CODE_LIMIT,
};

#[test]
fn hex_strings_have_two_lowercase_digits_per_byte() {
    assert_eq!(hex_string_from_bytes(&vec![0, 255, 16, 171]), "00ff10ab");
    let s = generate_hex_string(16);
    assert_eq!(s.len(), 32);
    assert!(s.chars().all(|c| c.is_ascii_hexdigit() && !c.is_ascii_uppercase()));
}

#[test]
fn strings_are_drawn_from_their_alphabet() {
    let s = generate_alphanumeric_string(32);
    assert_eq!(s.chars().count(), 32);
    assert!(s.chars().all(|c| c.is_ascii_alphanumeric()));
    let s = generate_lowercase_string(8);
    assert_eq!(s.len(), 8);
    assert!(s.chars().all(|c| c.is_ascii_lowercase()));
    let s = generate_alphabetic_string(8);
    assert_eq!(s.len(), 8);
    assert!(s.chars().all(|c| c.is_ascii_alphabetic()));
    let s = generate_from_charset("xy", 50);
    assert!(s.chars().all(|c| c == 'x' || c == 'y'));
    assert_eq!(generate_from_charset("abc", 0), "");
}

#[test]
fn picks_index_the_alphabet() {
    assert_eq!(string_from_picks(&vec!['a', 'b', 'c'], &vec![2, 0, 1, 1]), "cabb");
}

#[test]
fn join_codes_are_the_last_nine_digits() {
    assert_eq!(join_code_from(1_234_567_890_123), 567_890_123);
    assert_eq!(join_code_from(999_999_999), 999_999_999);
    assert_eq!(join_code_from(1_000_000_000), 0);
    assert!(generate_join_code() < JOIN_CODE_LIMIT);
}
