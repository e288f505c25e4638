use carve::competition::{
    end_competition, ended_toast, nat_rule_change, refresh_competition_state, should_enable_nat, start_competition,
    started_toast, CompetitionError, NatChange, StateWrite,
};
use carve::model::{CompetitionState, CompetitionStatus, ToastSeverity, UtcTime};

fn at(secs: i64) -> UtcTime {
    UtcTime { secs, nanos: 0 }
}

fn state(status: CompetitionStatus, start: Option<i64>, end: Option<i64>) -> CompetitionState {
    CompetitionState { name: "ctf".to_string(), status, start_time: start.map(at), end_time: end.map(at) }
}

#[test]
fn nothing_stored_gives_the_unstarted_default() {
    let (s, w) = refresh_competition_state("ctf", None, at(100));
    assert_eq!(s, state(CompetitionStatus::Unstarted, None, None));
    assert_eq!(w, StateWrite::StoreDefault);
}

#[test]
fn an_active_competition_past_its_end_is_finished() {
    let (s, w) = refresh_competition_state("ctf", Some(state(CompetitionStatus::Active, Some(0), Some(50))), at(100));
    assert_eq!(s, state(CompetitionStatus::Finished, Some(0), Some(50)));
    assert_eq!(w, StateWrite::StoreAndPublish);
    let (s, w) = refresh_competition_state("ctf", Some(state(CompetitionStatus::Active, Some(0), Some(50))), at(50));
    assert_eq!(s.status, CompetitionStatus::Finished);
    assert_eq!(w, StateWrite::StoreAndPublish);
    let (s, w) = refresh_competition_state("ctf", Some(state(CompetitionStatus::Active, Some(0), Some(150))), at(100));
    assert_eq!(s.status, CompetitionStatus::Active);
    assert_eq!(w, StateWrite::Nothing);
    let (s, w) = refresh_competition_state("ctf", Some(state(CompetitionStatus::Active, Some(0), None)), at(100));
    assert_eq!(s.status, CompetitionStatus::Active);
    assert_eq!(w, StateWrite::Nothing);
}

#[test]
fn reading_twice_changes_nothing_more() {
    let first = refresh_competition_state("ctf", Some(state(CompetitionStatus::Active, Some(0), Some(50))), at(100)).0;
    let (again, w) = refresh_competition_state("ctf", Some(first.clone()), at(100));
    assert_eq!(again, first);
    assert_eq!(w, StateWrite::Nothing);
}

#[test]
fn starting_sets_the_start_and_end_times() {
    let s = start_competition("ctf", &state(CompetitionStatus::Unstarted, None, None), at(1000), Some(3600)).unwrap();
    assert_eq!(s, state(CompetitionStatus::Active, Some(1000), Some(4600)));
    let s = start_competition("ctf", &state(CompetitionStatus::Unstarted, None, None), at(1000), None).unwrap();
    assert_eq!(s, state(CompetitionStatus::Active, Some(1000), None));
}

#[test]
fn start_and_end_are_refused_in_the_wrong_stage() {
    let e = start_competition("ctf", &state(CompetitionStatus::Active, Some(0), None), at(1), None).unwrap_err();
    assert_eq!(e, CompetitionError::AlreadyActive);
    assert_eq!(e.message(), "Competition is already active");
    let e = start_competition("ctf", &state(CompetitionStatus::Finished, Some(0), Some(1)), at(2), None).unwrap_err();
    assert_eq!(e, CompetitionError::AlreadyFinished);
    assert_eq!(e.message(), "Competition has already finished");
    let e = end_competition("ctf", &state(CompetitionStatus::Unstarted, None, None), at(2)).unwrap_err();
    assert_eq!(e, CompetitionError::NotStarted);
    assert_eq!(e.message(), "Competition has not started yet");
    let e = end_competition("ctf", &state(CompetitionStatus::Finished, Some(0), Some(1)), at(2)).unwrap_err();
    assert_eq!(e, CompetitionError::AlreadyFinished);
}

#[test]
fn start_then_end_finishes_the_competition() {
    let started = start_competition("ctf", &state(CompetitionStatus::Unstarted, None, None), at(10), Some(100)).unwrap();
    let ended = end_competition("ctf", &started, at(20)).unwrap();
    assert_eq!(ended, state(CompetitionStatus::Finished, Some(10), Some(20)));
    assert!(start_competition("ctf", &ended, at(30), None).is_err());
    assert!(end_competition("ctf", &ended, at(30)).is_err());
    let (read, w) = refresh_competition_state("ctf", Some(ended.clone()), at(1000));
    assert_eq!(read, ended);
    assert_eq!(w, StateWrite::Nothing);
}

#[test]
fn nat_is_open_only_before_the_start() {
    assert!(should_enable_nat(CompetitionStatus::Unstarted));
    assert!(!should_enable_nat(CompetitionStatus::Active));
    assert!(!should_enable_nat(CompetitionStatus::Finished));
    assert_eq!(nat_rule_change(true, false), (NatChange::Add, true));
    assert_eq!(nat_rule_change(false, true), (NatChange::Delete, false));
    assert_eq!(nat_rule_change(true, true), (NatChange::Keep, true));
    assert_eq!(nat_rule_change(false, false), (NatChange::Keep, false));
}

#[test]
fn lifecycle_toasts() {
    let t = started_toast("ctf");
    assert_eq!(t.title, "Competition Started");
    assert_eq!(t.message, "The competition 'ctf' has started.");
    assert_eq!(t.severity, ToastSeverity::Info);
    assert_eq!(t.team, None);
    let t = ended_toast("ctf");
    assert_eq!(t.title, "Competition Ended");
    assert_eq!(t.message, "The competition 'ctf' has ended.");
}
