use carve::model::{IdentitySources, User};
use carve::users::{
    check_local_password, check_registration, copy_user, hash_local_password, merge_registration,
    team_with_least_members, with_local_password_source,
};

fn user(name: &str, team: Option<&str>, admin: bool, sources: Vec<IdentitySources>) -> User {
    User {
        username: name.to_string(),
        email: format!("{}@example.com", name),
        team_name: team.map(|t| t.to_string()),
        is_admin: admin,
        identity_sources: sources,
    }
}

#[test]
fn a_password_that_was_set_verifies_and_another_does_not() {
    let phc = hash_local_password("correct horse").unwrap();
    assert!(phc.starts_with("$argon2"));
    assert_eq!(check_local_password("correct horse", &phc), Ok(true));
    assert_eq!(check_local_password("wrong horse", &phc), Ok(false));
}

#[test]
fn hashing_twice_salts_differently() {
    let a = hash_local_password("pw123456").unwrap();
    let b = hash_local_password("pw123456").unwrap();
    assert_ne!(a, b);
    assert_eq!(check_local_password("pw123456", &b), Ok(true));
}

#[test]
fn an_unreadable_hash_is_an_error() {
    let e = check_local_password("pw", "not a phc string").unwrap_err();
    assert!(e.starts_with("Failed to parse hashed password: "), "{}", e);
}

#[test]
fn registration_of_a_new_user_stores_it_with_the_given_team() {
    let u = user("alice", None, false, vec![IdentitySources::OIDC]);
    let r = merge_registration(None, &u, Some("Red"));
    assert_eq!(r.username, "alice");
    assert_eq!(r.team_name, Some("Red".to_string()));
    assert_eq!(r.identity_sources, vec![IdentitySources::OIDC]);
}

#[test]
fn registration_of_a_known_user_merges_sources_and_keeps_admin() {
    let existing = user("alice", Some("Blue"), true, vec![IdentitySources::LocalUserPassword]);
    let mut u = user("alice", None, false, vec![IdentitySources::OIDC, IdentitySources::LocalUserPassword]);
    u.email = "new@example.com".to_string();
    let r = merge_registration(Some(existing), &u, None);
    assert!(r.is_admin);
    assert_eq!(r.email, "new@example.com");
    assert_eq!(r.team_name, None);
    assert_eq!(r.identity_sources, vec![IdentitySources::LocalUserPassword, IdentitySources::OIDC]);
}

#[test]
fn registration_checks_the_fields() {
    assert_eq!(check_registration(&user("alice", None, false, vec![])), Ok(()));
    assert_eq!(
        check_registration(&user("al", None, false, vec![])),
        Err("Invalid user fields: Username must be between 3 and 32 characters long".to_string())
    );
}

#[test]
fn setting_a_password_adds_the_local_source_once() {
    let u = user("bob", Some("Red"), false, vec![IdentitySources::OIDC]);
    let r = with_local_password_source(&u).unwrap();
    assert_eq!(r.identity_sources, vec![IdentitySources::OIDC, IdentitySources::LocalUserPassword]);
    assert_eq!(r.team_name, Some("Red".to_string()));
    assert!(with_local_password_source(&r).is_none());
    assert_eq!(copy_user(&r), r);
}

#[test]
fn the_smallest_team_is_chosen() {
    let users = vec![
        user("a", Some("Red"), false, vec![]),
        user("b", Some("Red"), false, vec![]),
        user("c", Some("Blue"), false, vec![]),
        user("d", None, false, vec![]),
    ];
    assert_eq!(team_with_least_members(&users), Some("Blue".to_string()));
    assert_eq!(team_with_least_members(&vec![user("d", None, false, vec![])]), None);
    assert_eq!(team_with_least_members(&vec![]), None);
}
