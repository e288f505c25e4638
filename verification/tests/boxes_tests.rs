use carve::boxes::{
    address_from_lookup, box_event_toast, box_exists, box_ip_display, check_cooldown, check_team_access,
    command_name, console_code, cooldown_remaining, credentials_value, parse_credentials, required_team,
    restore_cooldown, split_box_name, team_box_names, wanted_command,
};
use carve::config::{Box as BoxConfig, Competition, RedisConfig, RegistrationType, Team};
use carve::model::{IdentitySources, QemuCommands, ToastSeverity};

fn competition() -> Competition {
    let b = |n: &str| BoxConfig { name: n.to_string(), labels: "".to_string(), cores: None, ram_mb: None, backing_image: "i".to_string() };
    Competition {
        name: "CTF".to_string(),
        redis: RedisConfig { host: "redis".to_string(), port: 6379, db: 0 },
        oidc_provider_name: "idp".to_string(),
        cidr: None,
        dns_host: Some("10.0.0.2".to_string()),
        vtep_host: None,
        boxes: vec![b("web"), b("db")],
        teams: vec![Team { name: "Red".to_string() }, Team { name: "Blue".to_string() }],
        checks: vec![],
        flag_checks: vec![],
        admin_group: None,
        description: None,
        duration: None,
        registration_type: RegistrationType::Join,
        identity_sources: vec![IdentitySources::LocalUserPassword],
        create_default_admin: false,
        dns_upstream_service: None,
        restore_cooldown: Some(30),
        allow_non_admins_to_generate_join_codes: true,
    }
}

#[test]
fn box_names_use_lowercase_team_and_competition() {
    assert_eq!(team_box_names(&competition(), 1), vec!["web.blue.ctf.hack".to_string(), "db.blue.ctf.hack".to_string()]);
}

#[test]
fn a_box_name_must_name_a_box_and_a_team() {
    let c = competition();
    assert!(box_exists(&c, "web.red.ctf.hack"));
    assert!(box_exists(&c, "db.blue.x"));
    assert!(!box_exists(&c, "web.Red.ctf.hack"));
    assert!(!box_exists(&c, "mail.red.ctf.hack"));
    assert!(!box_exists(&c, "web.green.ctf.hack"));
    assert!(!box_exists(&c, "web.red"));
}

#[test]
fn addresses_shown_for_a_box() {
    assert_eq!(box_ip_display(false, Some("1.2.3.4".to_string())), "DNS Misconfiguration");
    assert_eq!(box_ip_display(true, None), "Unset");
    assert_eq!(box_ip_display(true, Some("1.2.3.4".to_string())), "1.2.3.4");
    assert_eq!(address_from_lookup("10.0.1.5\n"), Some("10.0.1.5".to_string()));
    assert_eq!(address_from_lookup(""), None);
    assert_eq!(address_from_lookup("  \n"), None);
    assert_eq!(address_from_lookup("web.example.\n10.0.1.5\n"), None);
    assert_eq!(address_from_lookup("10.0.1.256"), None);
}

#[test]
fn access_to_a_box_needs_the_same_team() {
    let (kind, team) = split_box_name("web.red.ctf.hack", 3, 404, "Creds not set").unwrap();
    assert_eq!((kind.as_str(), team.as_str()), ("web", "red"));
    let e = split_box_name("web.red", 3, 404, "Creds not set").unwrap_err();
    assert_eq!((e.status, e.error.as_str()), (404, "Creds not set"));
    assert!(split_box_name("web.red", 2, 404, "Box not found").is_ok());
    let e = split_box_name("web", 2, 404, "Box not found").unwrap_err();
    assert_eq!((e.status, e.error.as_str()), (404, "Box not found"));
    assert!(check_team_access(Some("red"), "red").is_ok());
    let e = check_team_access(Some("Red"), "red").unwrap_err();
    assert_eq!((e.status, e.error.as_str()), (403, "You do not have permission to access this box"));
    let e = check_team_access(None, "red").unwrap_err();
    assert_eq!((e.status, e.error.as_str()), (401, "You must be logged in to access this box"));
    assert_eq!(required_team(Some("red")).unwrap(), "red");
    let e = required_team(None).unwrap_err();
    assert_eq!((e.status, e.error.as_str()), (400, "Team parameter is required for this endpoint"));
}

#[test]
fn credentials_read_back_what_was_written() {
    let stored = credentials_value("red", "pa:ss");
    assert_eq!(stored, "red:pa:ss");
    assert_eq!(parse_credentials(&stored), Some(("red".to_string(), "pa:ss".to_string())));
    assert_eq!(parse_credentials("nocolon"), None);
    assert_eq!(parse_credentials(":"), Some((String::new(), String::new())));
}

#[test]
fn restore_cooldowns() {
    assert_eq!(restore_cooldown(&competition()), 30);
    let mut c = competition();
    c.restore_cooldown = None;
    assert_eq!(restore_cooldown(&c), 10);
    assert_eq!(cooldown_remaining(-2), None);
    assert_eq!(cooldown_remaining(-1), Some(0));
    assert_eq!(cooldown_remaining(7), Some(7));
    assert!(check_cooldown(None).is_ok());
    let e = check_cooldown(Some(7)).unwrap_err();
    assert_eq!((e.status, e.error.as_str()), (429, "Restore command is on cooldown. Please wait 7 seconds."));
}

#[test]
fn commands_sent_to_boxes() {
    assert_eq!(command_name(QemuCommands::Restore), format!("{:?}", QemuCommands::Restore));
    assert_eq!(command_name(QemuCommands::Snapshot), format!("{:?}", QemuCommands::Snapshot));
    assert_eq!(command_name(QemuCommands::Stop), format!("{:?}", QemuCommands::Stop));
    let t = box_event_toast("red", "web", QemuCommands::Restore);
    assert_eq!(t.title, "Box Event");
    assert_eq!(t.message, "Box 'web' has received a 'Restore' command.");
    assert_eq!(t.severity, ToastSeverity::Warning);
    assert_eq!(t.team, Some("red".to_string()));
    let wanted = vec![QemuCommands::Snapshot, QemuCommands::Restore];
    assert!(wanted_command(&wanted, QemuCommands::Restore));
    assert!(!wanted_command(&wanted, QemuCommands::Stop));
}

#[test]
fn console_codes_are_kept_once_made() {
    assert_eq!(console_code(Some("old".to_string()), "new".to_string()), ("old".to_string(), false));
    assert_eq!(console_code(None, "new".to_string()), ("new".to_string(), true));
}
