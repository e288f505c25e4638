use carve::model::{IdentitySources, User};
use carve::validation::{is_valid_ipv4, parse_u64, validate_password, validate_user_fields};

fn user(name: &str, email: &str) -> User {
    User::new(name.to_string(), email.to_string(), vec![IdentitySources::LocalUserPassword])
}

#[test]
fn passwords_need_eight_bytes() {
    assert_eq!(validate_password("short"), Err("Password must be at least 8 characters long".to_string()));
    assert_eq!(validate_password("12345678"), Ok(()));
    assert_eq!(validate_password("ééééé"), Ok(()));
}

#[test]
fn user_fields_are_checked_in_order() {
    assert_eq!(
        validate_user_fields(&user("ab", "a@b.cd")),
        Err("Username must be between 3 and 32 characters long".to_string())
    );
    assert_eq!(
        validate_user_fields(&user(&"x".repeat(33), "a@b.cd")),
        Err("Username must be between 3 and 32 characters long".to_string())
    );
    assert_eq!(
        validate_user_fields(&user("bad name", "a@b.cd")),
        Err("Username may only contain _, -, and alphanumeric characters".to_string())
    );
    assert_eq!(
        validate_user_fields(&user("1player", "a@b.cd")),
        Err("Username may not start with a number".to_string())
    );
    assert_eq!(
        validate_user_fields(&user("player_1", "not-an-email")),
        Err("Email must be a valid email address".to_string())
    );
    assert_eq!(validate_user_fields(&user("player-1", "player@example.com")), Ok(()));
    assert_eq!(validate_user_fields(&user("Ünïcode", "u@example.org")), Ok(()));
}

#[test]
fn ipv4_addresses_are_four_bytes_without_leading_zeros() {
    assert!(is_valid_ipv4("10.0.0.1"));
    assert!(is_valid_ipv4("255.255.255.255"));
    assert!(is_valid_ipv4("0.0.0.0"));
    assert!(!is_valid_ipv4("10.0.0"));
    assert!(!is_valid_ipv4("10.0.0.1.5"));
    assert!(!is_valid_ipv4("10.0.0.256"));
    assert!(!is_valid_ipv4("10.00.0.1"));
    assert!(!is_valid_ipv4("10.0.0.x"));
    assert!(!is_valid_ipv4(""));
    assert!(!is_valid_ipv4("+1.2.3.4"));
    assert!(!is_valid_ipv4("1.+2.3.4"));
    assert!(!is_valid_ipv4("1.2.3.0255"));
    assert!(is_valid_ipv4("1.20.199.0"));
}

#[test]
fn parse_u64_reads_like_str_parse() {
    for s in ["0", "42", "+7", "007", "18446744073709551615", "", "+", "-1", "4a", "18446744073709551616", " 1"] {
        assert_eq!(parse_u64(s), s.parse::<u64>().ok(), "{:?}", s);
    }
}
