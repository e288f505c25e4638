//! The competition life cycle: Unstarted, then Active, then Finished.
//!
//! Redis holds the state; the functions here decide what the next state is
//! and what has to be written back.
use crate::model::{
    time_le, utc_le, CompetitionState, CompetitionStatus, ToastNotification, ToastSeverity,
    UtcTime, MAX_UTC_SECS, MIN_UTC_SECS,
};
use crate::text::concat3;
use vstd::prelude::*;

verus! {

/// Why a start or an end of the competition was refused.
#[derive(Debug, Clone, Copy, PartialEq, Eq, Structural)]
pub enum CompetitionError {
    AlreadyActive,
    AlreadyFinished,
    NotStarted,
}

impl CompetitionError {
    /// The error text.
    pub fn message(&self) -> (s: String)
        ensures
            s@ == self.text(),
    {
        match self {
            CompetitionError::AlreadyActive => "Competition is already active".to_owned(),
            CompetitionError::AlreadyFinished => "Competition has already finished".to_owned(),
            CompetitionError::NotStarted => "Competition has not started yet".to_owned(),
        }
    }

    /// The error text, as characters.
    pub open spec fn text(self) -> Seq<char> {
        match self {
            CompetitionError::AlreadyActive => "Competition is already active"@,
            CompetitionError::AlreadyFinished => "Competition has already finished"@,
            CompetitionError::NotStarted => "Competition has not started yet"@,
        }
    }
}

/// What has to be written to Redis after reading the state.
#[derive(Debug, Clone, Copy, PartialEq, Eq, Structural)]
pub enum StateWrite {
    /// Nothing changed.
    Nothing,
    /// No state was stored: store the default one.
    StoreDefault,
    /// The end time has passed: store the finished state and publish it on
    /// the competition's event channel.
    StoreAndPublish,
}

/// Order of the life cycle: Unstarted, Active, Finished.
pub open spec fn stage(s: CompetitionStatus) -> int {
    match s {
        CompetitionStatus::Unstarted => 0,
        CompetitionStatus::Active => 1,
        CompetitionStatus::Finished => 2,
    }
}

/// The state of a competition for which nothing is stored yet.
pub open spec fn default_state_spec(name: Seq<char>, s: CompetitionState) -> bool {
    &&& s.name@ == name
    &&& s.status == CompetitionStatus::Unstarted
    &&& s.start_time is None
    &&& s.end_time is None
}

/// The stored state as it is read at `now`: an active competition whose end
/// time has come is finished, end time kept.
pub open spec fn is_expired(stored: CompetitionState, now: UtcTime) -> bool {
    &&& stored.status == CompetitionStatus::Active
    &&& stored.end_time is Some
    &&& time_le(stored.end_time->0, now)
}

/// Status of the stored state as read at `now`.
pub open spec fn refreshed_status(stored: CompetitionState, now: UtcTime) -> CompetitionStatus {
    if is_expired(stored, now) {
        CompetitionStatus::Finished
    } else {
        stored.status
    }
}

/// Status reached by starting the competition from `status`, or why it
/// cannot be started.
pub open spec fn start_outcome(status: CompetitionStatus) -> Result<CompetitionStatus, CompetitionError> {
    match status {
        CompetitionStatus::Active => Err(CompetitionError::AlreadyActive),
        CompetitionStatus::Finished => Err(CompetitionError::AlreadyFinished),
        CompetitionStatus::Unstarted => Ok(CompetitionStatus::Active),
    }
}

/// Status reached by ending the competition from `status`, or why it cannot
/// be ended.
pub open spec fn end_outcome(status: CompetitionStatus) -> Result<CompetitionStatus, CompetitionError> {
    match status {
        CompetitionStatus::Active => Ok(CompetitionStatus::Finished),
        CompetitionStatus::Unstarted => Err(CompetitionError::NotStarted),
        CompetitionStatus::Finished => Err(CompetitionError::AlreadyFinished),
    }
}

/// Reads the competition state at `now`. With nothing stored the default
/// state is returned and has to be stored; an active state whose end time
/// has come becomes finished and has to be stored and published.
pub fn refresh_competition_state(
    competition_name: &str,
    stored: Option<CompetitionState>,
    now: UtcTime,
) -> (r: (CompetitionState, StateWrite))
    ensures
        match stored {
            None => default_state_spec(competition_name@, r.0) && r.1 == StateWrite::StoreDefault,
            Some(s) => {
                &&& r.0.name@ == s.name@
                &&& r.0.status == refreshed_status(s, now)
                &&& r.0.start_time == s.start_time
                &&& r.0.end_time == s.end_time
                &&& r.1 == (if is_expired(s, now) {
                    StateWrite::StoreAndPublish
                } else {
                    StateWrite::Nothing
                })
            },
        },
{
    match stored {
        None => (
            CompetitionState {
                name: competition_name.to_owned(),
                status: CompetitionStatus::Unstarted,
                start_time: None,
                end_time: None,
            },
            StateWrite::StoreDefault,
        ),
        Some(mut state) => {
            if state.status == CompetitionStatus::Active {
                if let Some(end_time) = state.end_time {
                    if utc_le(end_time, now) {
                        state.status = CompetitionStatus::Finished;
                        state.end_time = Some(end_time);
                        return (state, StateWrite::StoreAndPublish);
                    }
                }
            }
            (state, StateWrite::Nothing)
        },
    }
}

/// `d as i64`: a duration above `i64::MAX` wraps to a negative number.
pub open spec fn duration_as_secs(d: u64) -> int {
    if d <= i64::MAX {
        d as int
    } else {
        d - 18446744073709551616
    }
}

/// Largest number of seconds a time delta can hold.
pub const MAX_DELTA_SECS: i64 = 9223372036854775;

/// The end time of a competition of `duration` seconds started at `start`
/// stays representable.
pub open spec fn end_time_fits(start: UtcTime, duration: Option<u64>) -> bool {
    match duration {
        None => true,
        Some(d) => {
            &&& -MAX_DELTA_SECS <= duration_as_secs(d) <= MAX_DELTA_SECS
            &&& MIN_UTC_SECS <= start.secs + duration_as_secs(d) <= MAX_UTC_SECS
        },
    }
}

/// `start` plus `duration` seconds, when the duration is set.
pub open spec fn end_time_for(start: UtcTime, duration: Option<u64>) -> Option<UtcTime> {
    match duration {
        None => None,
        Some(d) => Some(UtcTime { secs: (start.secs + duration_as_secs(d)) as i64, nanos: start.nanos }),
    }
}

fn wrap_duration(d: u64) -> (r: i64)
    ensures
        r == duration_as_secs(d),
{
    if d <= 9223372036854775807u64 {
        d as i64
    } else {
        let below: u64 = d - 9223372036854775808u64;
        (below as i64) - 9223372036854775807i64 - 1
    }
}

/// The state after the start of the competition at `now`. An active or a
/// finished competition cannot be started.
pub fn start_competition(
    competition_name: &str,
    current: &CompetitionState,
    now: UtcTime,
    duration: Option<u64>,
) -> (r: Result<CompetitionState, CompetitionError>)
    requires
        current.status == CompetitionStatus::Unstarted ==> end_time_fits(now, duration),
    ensures
        r is Ok <==> start_outcome(current.status) is Ok,
        r is Err ==> r->Err_0 == start_outcome(current.status)->Err_0,
        r is Ok ==> ({
            let s = r->Ok_0;
            &&& s.name@ == competition_name@
            &&& s.status == start_outcome(current.status)->Ok_0
            &&& s.start_time == Some(now)
            &&& s.end_time == end_time_for(now, duration)
        }),
{
    match current.status {
        CompetitionStatus::Active => Err(CompetitionError::AlreadyActive),
        CompetitionStatus::Finished => Err(CompetitionError::AlreadyFinished),
        CompetitionStatus::Unstarted => {
            let end_time = match duration {
                None => None,
                Some(d) => {
                    let delta = wrap_duration(d);
                    Some(UtcTime { secs: now.secs + delta, nanos: now.nanos })
                },
            };
            Ok(
                CompetitionState {
                    name: competition_name.to_owned(),
                    status: CompetitionStatus::Active,
                    start_time: Some(now),
                    end_time,
                },
            )
        },
    }
}

/// The state after the end of the competition at `now`. Only an active
/// competition can be ended; its start time is kept.
pub fn end_competition(competition_name: &str, current: &CompetitionState, now: UtcTime) -> (r:
    Result<CompetitionState, CompetitionError>)
    ensures
        r is Ok <==> end_outcome(current.status) is Ok,
        r is Err ==> r->Err_0 == end_outcome(current.status)->Err_0,
        r is Ok ==> ({
            let s = r->Ok_0;
            &&& s.name@ == competition_name@
            &&& s.status == end_outcome(current.status)->Ok_0
            &&& s.start_time == current.start_time
            &&& s.end_time == Some(now)
        }),
{
    match current.status {
        CompetitionStatus::Active => Ok(
            CompetitionState {
                name: competition_name.to_owned(),
                status: CompetitionStatus::Finished,
                start_time: current.start_time,
                end_time: Some(now),
            },
        ),
        CompetitionStatus::Unstarted => Err(CompetitionError::NotStarted),
        CompetitionStatus::Finished => Err(CompetitionError::AlreadyFinished),
    }
}

/// Whether competition traffic to the outside is masqueraded: only before
/// the competition starts.
pub fn should_enable_nat(status: CompetitionStatus) -> (r: bool)
    ensures
        r == (status == CompetitionStatus::Unstarted),
{
    match status {
        CompetitionStatus::Unstarted => true,
        _ => false,
    }
}

/// Change to the outgoing NAT rule.
#[derive(Debug, Clone, Copy, PartialEq, Eq, Structural)]
pub enum NatChange {
    Add,
    Delete,
    Keep,
}

/// The change that brings the NAT rule from `active` to `enable`, and
/// whether the rule is active afterwards.
pub fn nat_rule_change(enable: bool, active: bool) -> (r: (NatChange, bool))
    ensures
        r.1 == enable,
        r.0 == (if enable && !active {
            NatChange::Add
        } else if !enable && active {
            NatChange::Delete
        } else {
            NatChange::Keep
        }),
{
    if enable && !active {
        (NatChange::Add, true)
    } else if !enable && active {
        (NatChange::Delete, false)
    } else {
        (NatChange::Keep, active)
    }
}

/// The toast announcing the start of the competition.
pub fn started_toast(competition_name: &str) -> (t: ToastNotification)
    ensures
        t.title@ == "Competition Started"@,
        t.message@ == "The competition '"@ + competition_name@ + "' has started."@,
        t.severity == ToastSeverity::Info,
        t.user is None,
        t.team is None,
        t.sound_effect is None,
{
    ToastNotification {
        title: "Competition Started".to_owned(),
        message: concat3("The competition '", competition_name, "' has started."),
        severity: ToastSeverity::Info,
        user: None,
        team: None,
        sound_effect: None,
    }
}

/// The toast announcing the end of the competition.
pub fn ended_toast(competition_name: &str) -> (t: ToastNotification)
    ensures
        t.title@ == "Competition Ended"@,
        t.message@ == "The competition '"@ + competition_name@ + "' has ended."@,
        t.severity == ToastSeverity::Info,
        t.user is None,
        t.team is None,
        t.sound_effect is None,
{
    ToastNotification {
        title: "Competition Ended".to_owned(),
        message: concat3("The competition '", competition_name, "' has ended."),
        severity: ToastSeverity::Info,
        user: None,
        team: None,
        sound_effect: None,
    }
}

// ---------------------------------------------------------------------------
// Laws of the life cycle
// ---------------------------------------------------------------------------

/// The life cycle never goes back: reading the state, starting and ending
/// the competition leave it at the same stage or move it forward.
pub proof fn lemma_stage_never_decreases(stored: CompetitionState, now: UtcTime, status: CompetitionStatus)
    ensures
        stage(stored.status) <= stage(refreshed_status(stored, now)),
        start_outcome(status) is Ok ==> stage(status) < stage(start_outcome(status)->Ok_0),
        end_outcome(status) is Ok ==> stage(status) < stage(end_outcome(status)->Ok_0),
{
}

/// Reading the state a second time at the same instant changes nothing and
/// writes nothing.
pub proof fn lemma_refresh_idempotent(stored: CompetitionState, read: CompetitionState, now: UtcTime)
    requires
        read.status == refreshed_status(stored, now),
        read.end_time == stored.end_time,
    ensures
        !is_expired(read, now),
        refreshed_status(read, now) == read.status,
{
}

/// Only an unstarted competition can be started, only an active one can be
/// ended, and starting then ending leads to Finished.
pub proof fn lemma_start_then_end(status: CompetitionStatus)
    ensures
        start_outcome(status) is Ok <==> status == CompetitionStatus::Unstarted,
        end_outcome(status) is Ok <==> status == CompetitionStatus::Active,
        end_outcome(start_outcome(CompetitionStatus::Unstarted)->Ok_0) == Ok::<
            CompetitionStatus,
            CompetitionError,
        >(CompetitionStatus::Finished),
{
}

/// A finished competition stays finished: it can be neither started nor
/// ended again, and reading it leaves it finished.
pub proof fn lemma_finished_is_final(stored: CompetitionState, now: UtcTime)
    requires
        stored.status == CompetitionStatus::Finished,
    ensures
        refreshed_status(stored, now) == CompetitionStatus::Finished,
        start_outcome(stored.status) is Err,
        end_outcome(stored.status) is Err,
{
}

} // verus!
