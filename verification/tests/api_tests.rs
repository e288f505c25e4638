use carve::api::{
    admin_session_valid, any_admin, bearer_token_matches, check_admin_join_code, check_api_key_deletion,
    check_callback, check_console_code_request, check_flag_window, check_message_not_empty, check_password_route,
    check_player_join_code, check_status_change, check_switch_session, claim_or_unknown, default_admin_user,
    find_flag_check, find_ticket, join_code_team, lifecycle_answer, local_user, login_location, message_added_text,
    message_sender, oidc_user, redemption_answer, registration_outcome, resolve_oidc_membership,
    scoring_check_names, session_valid, source_enabled, status_change_team, status_updated_text, submitter_team,
    switched_user, team_for_id, ticket_failure, ticket_requester, user_is_admin, user_team_id, ApiError,
    DeleteApiKeyRequest, Lookup,
};
use carve::config::{Competition, FlagCheck, RedisConfig, RegistrationType, Team};
use carve::model::{CompetitionStatus, IdentitySources, User};

fn competition(registration: RegistrationType) -> Competition {
    Competition {
        name: "ctf".to_string(),
        redis: RedisConfig { host: "redis".to_string(), port: 6379, db: 0 },
        oidc_provider_name: "idp".to_string(),
        cidr: None,
        dns_host: None,
        vtep_host: None,
        boxes: vec![],
        teams: vec![Team { name: "Red".to_string() }, Team { name: "Blue".to_string() }],
        checks: vec![],
        flag_checks: vec![FlagCheck {
            name: "flag1".to_string(),
            description: "".to_string(),
            points: 10,
            attempts: 1,
            box_name: "web".to_string(),
        }],
        admin_group: Some("admins".to_string()),
        description: None,
        duration: None,
        registration_type: registration,
        identity_sources: vec![IdentitySources::OIDC],
        create_default_admin: true,
        dns_upstream_service: None,
        restore_cooldown: None,
        allow_non_admins_to_generate_join_codes: false,
    }
}

fn err<T: std::fmt::Debug>(r: Result<T, ApiError>) -> (u16, String) {
    let e = r.unwrap_err();
    (e.status, e.error)
}

fn groups(v: &[Option<&str>]) -> Vec<Option<String>> {
    v.iter().map(|g| g.map(|s| s.to_string())).collect()
}

#[test]
fn sessions() {
    assert!(session_valid(Some("alice")));
    assert!(!session_valid(Some("")));
    assert!(!session_valid(None));
    assert!(admin_session_valid(Some(""), Some(true)));
    assert!(!admin_session_valid(Some("alice"), Some(false)));
    assert!(!admin_session_valid(Some("alice"), None));
    assert!(!admin_session_valid(None, Some(true)));
}

#[test]
fn bearer_tokens_must_equal_the_secret() {
    assert!(bearer_token_matches(Some("Bearer s3cret"), Some("s3cret")));
    assert!(!bearer_token_matches(Some("Bearer s3cre"), Some("s3cret")));
    assert!(!bearer_token_matches(Some("bearer s3cret"), Some("s3cret")));
    assert!(!bearer_token_matches(Some("s3cret"), Some("s3cret")));
    assert!(!bearer_token_matches(None, Some("s3cret")));
    assert!(!bearer_token_matches(Some("Bearer s3cret"), None));
    assert!(bearer_token_matches(Some("Bearer "), Some("")));
}

#[test]
fn the_login_callback_checks_pkce_and_csrf() {
    assert_eq!(check_callback(false, Some("v"), Some("s"), "s"), Some("/login?error=internal_error".to_string()));
    assert_eq!(check_callback(true, None, Some("s"), "s"), Some("/login?error=pkce".to_string()));
    assert_eq!(check_callback(true, Some("v"), None, "s"), Some("/login?error=csrf".to_string()));
    assert_eq!(check_callback(true, Some("v"), Some("s"), "t"), Some("/login?error=csrf".to_string()));
    assert_eq!(check_callback(true, Some("v"), Some("s"), "s"), None);
    assert_eq!(claim_or_unknown(None), "unknown");
    assert_eq!(claim_or_unknown(Some("bob")), "bob");
}

#[test]
fn single_sign_on_takes_the_first_team_group_and_the_admin_group() {
    let c = competition(RegistrationType::OidcOnly);
    assert_eq!(resolve_oidc_membership(&c, &groups(&[Some("users"), Some("Blue"), Some("Red")]), None), (Some("Blue".to_string()), false));
    assert_eq!(resolve_oidc_membership(&c, &groups(&[Some("admins"), None, Some("Red")]), None), (Some("Red".to_string()), true));
    assert_eq!(resolve_oidc_membership(&c, &groups(&[Some("Red"), Some("admins")]), None), (Some("Red".to_string()), false));
    assert_eq!(
        resolve_oidc_membership(&c, &groups(&[Some("Red"), Some("admins")]), Some("Blue".to_string())),
        (Some("Blue".to_string()), true)
    );
    assert_eq!(resolve_oidc_membership(&c, &groups(&[Some("red")]), None), (None, false));
    let c = competition(RegistrationType::Join);
    assert_eq!(resolve_oidc_membership(&c, &groups(&[Some("Red"), Some("admins")]), None), (None, true));
    let u = oidc_user("bob", "b@x.io", Some("Red".to_string()), true);
    assert_eq!(u.identity_sources, vec![IdentitySources::OIDC]);
    assert!(u.is_admin);
}

#[test]
fn password_logins_and_registrations() {
    assert_eq!(check_password_route(false, None, "/login?error=internal_error"), Some("/login?error=internal_error".to_string()));
    assert_eq!(check_password_route(true, Some("alice"), "/x"), Some("/".to_string()));
    assert_eq!(check_password_route(true, Some(""), "/x"), None);
    assert_eq!(check_password_route(true, None, "/x"), None);
    assert_eq!(login_location(Lookup::Found), "/");
    assert_eq!(login_location(Lookup::Missing), "/login?error=invalid_credentials");
    assert_eq!(login_location(Lookup::Failed), "/login?error=internal_error");
    assert_eq!(registration_outcome(true, true, true), "/register?error=username_exists");
    assert_eq!(registration_outcome(false, false, true), "/register?error=internal_error");
    assert_eq!(registration_outcome(false, true, false), "/register?error=password_requirements_not_met");
    assert_eq!(registration_outcome(false, true, true), "/login?success=registered");
    let u = local_user("carol", "c@x.io", None);
    assert_eq!(u.identity_sources, vec![IdentitySources::LocalUserPassword]);
    assert!(!u.is_admin);
    let c = competition(RegistrationType::Join);
    assert!(source_enabled(&c, IdentitySources::OIDC));
    assert!(!source_enabled(&c, IdentitySources::LocalUserPassword));
}

#[test]
fn teams_are_found_by_exact_name_and_by_id() {
    let c = competition(RegistrationType::Join);
    assert_eq!(user_team_id(&c, Some("Blue")), Some(2));
    assert_eq!(user_team_id(&c, Some("blue")), None);
    assert_eq!(user_team_id(&c, None), None);
    assert_eq!(team_for_id(&c, 1).unwrap(), 0);
    assert_eq!(team_for_id(&c, 2).unwrap(), 1);
    assert_eq!(err(team_for_id(&c, 0)), (404, "Team not found".to_string()));
    assert_eq!(err(team_for_id(&c, 3)), (404, "Team not found".to_string()));
}

#[test]
fn switching_teams() {
    assert_eq!(err(check_switch_session(None)), (400, "User not logged in".to_string()));
    assert_eq!(err(check_switch_session(Some(""))), (400, "User not logged in".to_string()));
    assert!(check_switch_session(Some("bob")).is_ok());
    assert_eq!(join_code_team(Ok(Some("Red".to_string()))).unwrap(), "Red");
    assert_eq!(err(join_code_team(Ok(None))), (404, "Team not found".to_string()));
    assert_eq!(err(join_code_team(Err(()))), (500, "Failed to check team join code".to_string()));
    let u = switched_user("bob", None, None, "Red");
    assert_eq!(u.email, "");
    assert!(!u.is_admin);
    assert_eq!(u.team_name, Some("Red".to_string()));
    assert!(u.identity_sources.is_empty());
    assert!(switched_user("bob", Some("b@x"), Some(true), "Red").is_admin);
}

#[test]
fn join_codes_and_api_keys() {
    assert_eq!(err(check_player_join_code(None, true)), (400, "User is not in a team".to_string()));
    assert_eq!(err(check_player_join_code(Some(""), true)), (400, "User is not in a team".to_string()));
    assert_eq!(
        err(check_player_join_code(Some("Red"), false)),
        (403, "Non-admins are not allowed to generate join codes".to_string())
    );
    assert!(check_player_join_code(Some("Red"), true).is_ok());
    assert_eq!(err(check_admin_join_code("")), (400, "Admin must provide a team name".to_string()));
    assert!(check_admin_join_code("Red").is_ok());
    assert_eq!(
        err(check_api_key_deletion(&DeleteApiKeyRequest { api_key: String::new() })),
        (400, "API key cannot be empty".to_string())
    );
    assert!(check_api_key_deletion(&DeleteApiKeyRequest { api_key: "k".to_string() }).is_ok());
}

#[test]
fn console_codes_only_while_running() {
    assert_eq!(err(check_console_code_request(None, CompetitionStatus::Active)), (400, "Team name not found in session".to_string()));
    assert_eq!(err(check_console_code_request(Some("Red"), CompetitionStatus::Unstarted)), (400, "Competition is not active".to_string()));
    assert!(check_console_code_request(Some("Red"), CompetitionStatus::Active).is_ok());
}

#[test]
fn the_default_admin() {
    let admin = default_admin_user();
    assert_eq!(admin.username, "admin");
    assert_eq!(admin.email, "admin@example.com");
    assert!(admin.is_admin);
    assert_eq!(admin.identity_sources, vec![IdentitySources::LocalUserPassword]);
    let plain = User::new("p".to_string(), "p@x".to_string(), vec![]);
    assert!(!any_admin(&vec![plain.clone()]));
    assert!(any_admin(&vec![plain.clone(), admin.clone()]));
    assert!(!user_is_admin(None));
    assert!(user_is_admin(Some(&admin)));
    assert!(!user_is_admin(Some(&plain)));
}

#[test]
fn flag_submission() {
    let c = competition(RegistrationType::Join);
    let with_team = User::with_team("p".to_string(), "p@x".to_string(), "Red".to_string(), vec![]);
    assert_eq!(submitter_team(&with_team).unwrap(), "Red");
    let no_team = User::new("p".to_string(), "p@x".to_string(), vec![]);
    assert_eq!(err(submitter_team(&no_team)), (400, "User is not on a team".to_string()));
    assert_eq!(find_flag_check(&c, "flag1").unwrap(), 0);
    assert_eq!(err(find_flag_check(&c, "flag2")), (404, "Flag check not found".to_string()));
    assert!(check_flag_window(CompetitionStatus::Active).is_ok());
    assert_eq!(
        err(check_flag_window(CompetitionStatus::Finished)),
        (400, "Flag submission is only allowed while the competition is active.".to_string())
    );
    assert_eq!(redemption_answer(true), (200, true, "Flag accepted!"));
    assert_eq!(redemption_answer(false), (400, false, "Incorrect or already redeemed flag."));
    assert_eq!(scoring_check_names(&c, Some("flag1")).unwrap(), vec!["flag1".to_string()]);
    assert_eq!(err(scoring_check_names(&c, Some("x"))), (404, "Scoring check not found".to_string()));
}

#[test]
fn support_ticket_requests() {
    assert_eq!(err(ticket_requester(None, Some("u".to_string()))), (401, "Team name not found in session".to_string()));
    assert_eq!(err(ticket_requester(Some("Red".to_string()), None)), (401, "Username not found in session".to_string()));
    assert_eq!(ticket_requester(Some("Red".to_string()), Some("u".to_string())).unwrap(), ("Red".to_string(), "u".to_string()));
    assert_eq!(err(check_message_not_empty("  \n")), (400, "Message cannot be empty".to_string()));
    assert!(check_message_not_empty(" hi ").is_ok());
    let e = ticket_failure("Support ticket 9 not found", "Failed to add message to support ticket");
    assert_eq!((e.status, e.error.as_str()), (404, "Support ticket not found"));
    let e = ticket_failure("redis down", "Failed to add message to support ticket");
    assert_eq!((e.status, e.error.as_str()), (500, "Failed to add message to support ticket"));
    assert_eq!(err(check_status_change(false)), (403, "Only administrators can update ticket status".to_string()));
    assert!(check_status_change(true).is_ok());
    assert_eq!(message_sender(true, Some("Red".to_string())).unwrap(), ("Red".to_string(), "admin"));
    assert_eq!(message_sender(false, Some("Red".to_string())).unwrap(), ("Red".to_string(), "team"));
    assert_eq!(err(message_sender(true, None)), (401, "No team context found".to_string()));
    assert_eq!(err(message_sender(false, None)), (401, "Team name not found in session".to_string()));
    assert_eq!(message_added_text(true), "Admin message added to support ticket successfully");
    assert_eq!(message_added_text(false), "Message added to support ticket successfully");
    assert_eq!(status_updated_text("closed"), "Support ticket status updated to: closed");
    assert_eq!(err(status_change_team(None)), (401, "Team context not found in session".to_string()));
    let all = vec![("a".to_string(), 3u64, ()), ("b".to_string(), 5u64, ()), ("c".to_string(), 5u64, ())];
    assert_eq!(find_ticket(&all, 5), Some(1));
    assert_eq!(find_ticket(&all, 4), None);
}

#[test]
fn starting_and_ending_answers() {
    assert_eq!(lifecycle_answer(true, Ok(())), (200, "Competition started".to_string()));
    assert_eq!(lifecycle_answer(false, Ok(())), (200, "Competition stopped".to_string()));
    assert_eq!(
        lifecycle_answer(true, Err("Competition is already active".to_string())),
        (500, "Failed to start competition: Competition is already active".to_string())
    );
    assert_eq!(
        lifecycle_answer(false, Err("x".to_string())),
        (500, "Failed to stop competition: x".to_string())
    );
}
