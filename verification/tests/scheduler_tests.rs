use carve::config::{Box as BoxConfig, Check, CheckSpec, IcmpCheckSpec};
use carve::model::CompetitionStatus;
use carve::scheduler::RoundAction;
use carve::scheduler::{
    box_address, box_check_outcome, box_hostname, collect_outcomes, next_check_time, no_dns_entry_message,
    records_results, round_state, round_step, score_key, score_members, should_check_box, template_failure_message,
    template_login,
};

fn check(selector: Option<Vec<(&str, &str)>>, alt: Option<Vec<(&str, &str)>>) -> Check {
    let conv = |v: Vec<(&str, &str)>| v.into_iter().map(|(a, b)| (a.to_string(), b.to_string())).collect();
    Check {
        name: "ping".to_string(),
        description: "".to_string(),
        interval: 60,
        points: 1,
        label_selector: selector.map(conv),
        label_selector_alt: alt.map(conv),
        spec: CheckSpec::Icmp(IcmpCheckSpec { code: 0 }),
    }
}

fn web() -> BoxConfig {
    BoxConfig { name: "web".to_string(), labels: "http".to_string(), cores: None, ram_mb: None, backing_image: "i".to_string() }
}

#[test]
fn checks_run_on_multiples_of_their_interval() {
    assert_eq!(next_check_time(1000, 60), (20, 1020));
    assert_eq!(next_check_time(1020, 60), (60, 1080));
    for now in [0i64, 1, 59, 61, 1_700_000_123] {
        let (wait, at) = next_check_time(now, 60);
        assert_eq!(at % 60, 0);
        assert!(wait > 0 && wait <= 60);
        assert_eq!(at, now + wait);
    }
    let (_, at) = next_check_time(-5, 10);
    assert_eq!(at % 10, 0);
    assert!(at > -5);
}

#[test]
fn selectors_choose_boxes_by_label() {
    assert!(should_check_box(&check(None, None), &web()));
    assert!(should_check_box(&check(Some(vec![]), None), &web()));
    assert!(should_check_box(&check(Some(vec![("", "http")]), None), &web()));
    assert!(!should_check_box(&check(Some(vec![("", "db")]), None), &web()));
    assert!(!should_check_box(&check(Some(vec![("role", "http")]), None), &web()));
    assert!(should_check_box(&check(None, Some(vec![("", "http")])), &web()));
    assert!(!should_check_box(&check(Some(vec![("", "db")]), Some(vec![("", "http")])), &web()));
}

#[test]
fn box_names_and_messages() {
    assert_eq!(box_hostname("web", "Red", "CTF"), "web.Red.CTF.hack");
    assert_eq!(no_dns_entry_message("web", "red", "ctf"), "Box web.red.ctf.hack has no dns entry (yet), skipping");
    assert_eq!(box_address(Some("10.0.0.5".to_string()), "web", "red", "ctf"), Ok("10.0.0.5".to_string()));
    assert_eq!(
        box_address(None, "web", "red", "ctf"),
        Err("Box web.red.ctf.hack has no dns entry (yet), skipping".to_string())
    );
    assert_eq!(template_failure_message("bad"), "Failed to apply template: bad");
    assert_eq!(template_login(None), (String::new(), String::new()));
    assert_eq!(
        template_login(Some(("u".to_string(), "p".to_string()))),
        ("u".to_string(), "p".to_string())
    );
}

#[test]
fn a_round_collects_messages_and_passing_boxes() {
    let outcomes = vec![
        box_check_outcome("web", Ok("HTTP check successful: x".to_string())),
        (None, None),
        box_check_outcome("db", Err("down".to_string())),
    ];
    let (messages, passing) = collect_outcomes(outcomes);
    assert_eq!(messages, vec!["HTTP check successful: x".to_string(), "down".to_string()]);
    assert_eq!(passing, vec!["web".to_string()]);
    let s = round_state(messages.clone(), passing.clone(), 4);
    assert!(s.success);
    assert_eq!(s.number_of_failures, 0);
    assert_eq!(s.success_fraction, (1, 2));
    assert_eq!(s.passing_boxes, passing);
    let f = round_state(messages.clone(), vec![], 4);
    assert!(!f.success);
    assert_eq!(f.number_of_failures, 5);
    assert_eq!(f.message, messages);
    assert_eq!(f.success_fraction, (0, 2));
    assert!(f.passing_boxes.is_empty());
}

#[test]
fn results_are_recorded_only_while_active() {
    assert!(records_results(CompetitionStatus::Active));
    assert!(!records_results(CompetitionStatus::Unstarted));
    assert!(!records_results(CompetitionStatus::Finished));
    assert_eq!(score_key("ctf", 2, "ping"), "ctf:2:ping");
    assert_eq!(score_members(1700000000, 2), vec!["1700000000:0".to_string(), "1700000000:1".to_string()]);
    assert_eq!(score_members(-1, 0), Vec::<String>::new());
}

#[test]
fn a_round_records_then_reads_then_writes() {
    assert_eq!(round_step(2, None, None), RoundAction::Record);
    assert_eq!(round_step(2, Some(false), None), RoundAction::Stop);
    assert_eq!(round_step(2, Some(true), None), RoundAction::ReadPrevious);
    assert_eq!(round_step(2, Some(true), Some(Some(3))), RoundAction::Write(3));
    assert_eq!(round_step(0, None, None), RoundAction::ReadPrevious);
    assert_eq!(round_step(0, None, Some(None)), RoundAction::Write(0));
    assert_eq!(round_step(0, None, Some(Some(7))), RoundAction::Write(7));
}
