use carve::config::{
    Box as BoxConfig, Check, CheckSpec, Competition, FlagCheck, IcmpCheckSpec, RedisConfig, RegistrationType, Team,
};
use carve::model::IdentitySources;
use carve::scoring::{
    add_counts, build_leaderboard, flag_redeemed_state, invalid_state_message, ranking_input, score_for_check,
    score_team_id, select_scoring_checks, team_id_in_range, total_score, unsolved_check_state,
};

fn competition() -> Competition {
    Competition {
        name: "ctf".to_string(),
        redis: RedisConfig { host: "redis".to_string(), port: 6379, db: 0 },
        oidc_provider_name: "idp".to_string(),
        cidr: None,
        dns_host: None,
        vtep_host: None,
        boxes: vec![BoxConfig {
            name: "web".to_string(),
            labels: "http".to_string(),
            cores: None,
            ram_mb: None,
            backing_image: "img".to_string(),
        }],
        teams: vec![Team { name: "Red".to_string() }, Team { name: "red".to_string() }, Team { name: "Blue".to_string() }],
        checks: vec![Check {
            name: "ping".to_string(),
            description: "".to_string(),
            interval: 30,
            points: 2,
            label_selector: None,
            label_selector_alt: None,
            spec: CheckSpec::Icmp(IcmpCheckSpec { code: 0 }),
        }],
        flag_checks: vec![FlagCheck {
            name: "flag1".to_string(),
            description: "".to_string(),
            points: 50,
            attempts: 3,
            box_name: "web".to_string(),
        }],
        admin_group: None,
        description: None,
        duration: None,
        registration_type: RegistrationType::Join,
        identity_sources: vec![IdentitySources::LocalUserPassword],
        create_default_admin: false,
        dns_upstream_service: None,
        restore_cooldown: None,
        allow_non_admins_to_generate_join_codes: true,
    }
}

#[test]
fn check_score_is_successes_times_points() {
    assert_eq!(score_for_check(7, 5), 35);
    assert_eq!(score_for_check(0, 100), 0);
}

#[test]
fn unreadable_scores_count_for_nothing() {
    assert_eq!(total_score(&vec![Some(10), None, Some(-3), Some(5)]), 12);
    assert_eq!(total_score(&vec![]), 0);
}

#[test]
fn leaderboard_ranks_by_score_and_keeps_ties_in_configuration_order() {
    let names = vec!["Red".to_string(), "Blue".to_string(), "Green".to_string()];
    let board = build_leaderboard(&names, &vec![5, 9, 5]);
    let rows: Vec<(u64, String, i64, u64)> =
        board.iter().map(|e| (e.team_id, e.team_name.clone(), e.score, e.rank)).collect();
    assert_eq!(
        rows,
        vec![(2, "Blue".to_string(), 9, 1), (1, "Red".to_string(), 5, 2), (3, "Green".to_string(), 5, 3)]
    );
    let input = ranking_input(&names, &vec![5, 9, 5]);
    assert_eq!(input, vec![("Red".to_string(), 5), ("Blue".to_string(), 9), ("Green".to_string(), 5)]);
}

#[test]
fn score_ids_follow_the_first_team_with_the_same_name_ignoring_case() {
    let c = competition();
    assert_eq!(score_team_id(&c, 0), 1);
    assert_eq!(score_team_id(&c, 1), 1);
    assert_eq!(score_team_id(&c, 2), 3);
}

#[test]
fn team_ids_count_from_one() {
    assert!(!team_id_in_range(0, 3));
    assert!(team_id_in_range(1, 3));
    assert!(team_id_in_range(3, 3));
    assert!(!team_id_in_range(4, 3));
}

#[test]
fn scoring_checks_are_named_or_all() {
    let c = competition();
    assert_eq!(select_scoring_checks(&c, None), Some(vec!["ping".to_string(), "flag1".to_string()]));
    assert_eq!(select_scoring_checks(&c, Some("flag1")), Some(vec!["flag1".to_string()]));
    assert_eq!(select_scoring_checks(&c, Some("ping")), Some(vec!["ping".to_string()]));
    assert_eq!(select_scoring_checks(&c, Some("nope")), None);
}

#[test]
fn counts_are_added_position_by_position() {
    let mut totals = vec![1, 2, 3];
    add_counts(&mut totals, &vec![10, 20]);
    assert_eq!(totals, vec![11, 22, 3]);
}

#[test]
fn stored_states() {
    let s = unsolved_check_state();
    assert!(!s.success);
    assert_eq!(s.message, vec!["Unsolved".to_string()]);
    assert_eq!(s.success_fraction, (0, 0));
    let s = flag_redeemed_state("ctf{abc}");
    assert!(s.success);
    assert_eq!(s.number_of_failures, 0);
    assert_eq!(s.message, vec!["Flag redeemed: ctf{abc}".to_string()]);
    assert_eq!(s.success_fraction, (1, 1));
    assert_eq!(invalid_state_message("x: [", "bad yaml"), "Invalid state format (YAML): x: [: bad yaml");
}
