//! The records CARVE keeps in Redis: users, the competition state, the
//! per-check state shown to teams, toast notifications and support tickets.
use vstd::prelude::*;

verus! {

/// The views of a sequence of strings.
pub open spec fn strs(v: Seq<String>) -> Seq<Seq<char>> {
    v.map_values(|s: String| s@)
}

/// The view of an optional string.
pub open spec fn opt_str(o: Option<String>) -> Option<Seq<char>> {
    match o {
        Some(s) => Some(s@),
        None => None,
    }
}

/// How a user may log in.
#[derive(Debug, Clone, Copy, PartialEq, Eq, Structural)]
pub enum IdentitySources {
    LocalUserPassword,
    OIDC,
}

/// A registered player or administrator.
#[derive(Debug, Clone, PartialEq)]
pub struct User {
    pub username: String,
    pub email: String,
    pub team_name: Option<String>,
    pub is_admin: bool,
    pub identity_sources: Vec<IdentitySources>,
}

impl User {
    /// A user without a team, not an administrator.
    pub fn new(username: String, email: String, identity_sources: Vec<IdentitySources>) -> (u: Self)
        ensures
            u.username@ == username@,
            u.email@ == email@,
            u.team_name is None,
            !u.is_admin,
            u.identity_sources@ == identity_sources@,
    {
        User { username, email, team_name: None, is_admin: false, identity_sources }
    }

    /// A user on the given team, not an administrator.
    pub fn with_team(
        username: String,
        email: String,
        team_name: String,
        identity_sources: Vec<IdentitySources>,
    ) -> (u: Self)
        ensures
            u.username@ == username@,
            u.email@ == email@,
            opt_str(u.team_name) == Some(team_name@),
            !u.is_admin,
            u.identity_sources@ == identity_sources@,
    {
        User { username, email, team_name: Some(team_name), is_admin: false, identity_sources }
    }
}

/// Where the competition is in its life cycle.
#[derive(Debug, Clone, Copy, PartialEq, Eq, Structural)]
pub enum CompetitionStatus {
    Active,
    Unstarted,
    Finished,
}

/// Commands sent to the process that runs a team's virtual machine.
#[derive(Debug, Clone, Copy, PartialEq, Eq, Structural)]
pub enum QemuCommands {
    Restore,
    Stop,
    Snapshot,
}

/// An instant in UTC: whole seconds since the Unix epoch and the nanoseconds
/// past that second.
#[derive(Debug, Clone, Copy, PartialEq, Eq, Structural)]
pub struct UtcTime {
    pub secs: i64,
    pub nanos: u32,
}

/// Seconds since the epoch of the latest instant that can be represented.
pub const MAX_UTC_SECS: i64 = 8210298412799;

/// Seconds since the epoch of the earliest instant that can be represented.
pub const MIN_UTC_SECS: i64 = -8334632851200;

impl UtcTime {
    /// A representable instant: inside the supported calendar range, with
    /// fewer than a billion nanoseconds.
    pub open spec fn wf(self) -> bool {
        &&& MIN_UTC_SECS <= self.secs <= MAX_UTC_SECS
        &&& self.nanos < 1_000_000_000
    }

    /// Nanoseconds since the epoch.
    pub open spec fn ticks(self) -> int {
        self.secs * 1_000_000_000 + self.nanos
    }
}

/// `a` is no later than `b`.
pub open spec fn time_le(a: UtcTime, b: UtcTime) -> bool {
    a.secs < b.secs || (a.secs == b.secs && a.nanos <= b.nanos)
}

/// Whether `a` is no later than `b`.
pub fn utc_le(a: UtcTime, b: UtcTime) -> (r: bool)
    ensures
        r == time_le(a, b),
{
    a.secs < b.secs || (a.secs == b.secs && a.nanos <= b.nanos)
}

/// The shared state of a competition.
#[derive(Debug, Clone, PartialEq)]
pub struct CompetitionState {
    pub name: String,
    pub status: CompetitionStatus,
    pub start_time: Option<UtcTime>,
    pub end_time: Option<UtcTime>,
}

/// The latest result of one check for one team.
#[derive(Debug, PartialEq)]
pub struct CheckCurrentState {
    pub success: bool,
    pub number_of_failures: u64,
    pub message: Vec<String>,
    /// Passing boxes over reporting boxes.
    pub success_fraction: (u64, u64),
    pub passing_boxes: Vec<String>,
}

/// A copy of each string, in order.
pub fn clone_strings(v: &Vec<String>) -> (r: Vec<String>)
    ensures
        strs(r@) == strs(v@),
{
    let mut r: Vec<String> = Vec::new();
    let n = v.len();
    for i in 0..n
        invariant
            n == v@.len(),
            strs(r@) == strs(v@.take(i as int)),
    {
        let ghost before = r@;
        r.push(v[i].clone());
        assert(v@.take(i + 1) == v@.take(i as int).push(v@[i as int]));
        assert(strs(r@) =~= strs(before).push(v@[i as int]@));
        assert(strs(v@.take(i + 1)) =~= strs(v@.take(i as int)).push(v@[i as int]@));
    }
    assert(v@.take(n as int) == v@);
    r
}

impl CheckCurrentState {
    /// Equal field by field, strings compared by their characters.
    pub open spec fn same(self, other: Self) -> bool {
        &&& self.success == other.success
        &&& self.number_of_failures == other.number_of_failures
        &&& strs(self.message@) == strs(other.message@)
        &&& self.success_fraction == other.success_fraction
        &&& strs(self.passing_boxes@) == strs(other.passing_boxes@)
    }
}

impl Clone for CheckCurrentState {
    fn clone(&self) -> (r: Self)
        ensures
            r.same(*self),
    {
        CheckCurrentState {
            success: self.success,
            number_of_failures: self.number_of_failures,
            message: clone_strings(&self.message),
            success_fraction: self.success_fraction,
            passing_boxes: clone_strings(&self.passing_boxes),
        }
    }
}

/// How prominently a toast is shown.
#[derive(Debug, Clone, Copy, PartialEq, Eq, Structural)]
pub enum ToastSeverity {
    Info,
    Warning,
}

/// A notification pushed to the web interface: to one user, to one team, or
/// to everyone when neither is set.
#[derive(Debug, Clone, PartialEq)]
pub struct ToastNotification {
    pub title: String,
    pub message: String,
    pub severity: ToastSeverity,
    pub user: Option<String>,
    pub team: Option<String>,
    pub sound_effect: Option<String>,
}

/// Whether a support ticket is still being handled.
#[derive(Debug, Clone, Copy, PartialEq, Eq, Structural)]
pub enum SupportTicketState {
    Open,
    Closed,
}

/// One message in a support ticket's conversation.
#[derive(Debug, Clone, PartialEq)]
pub struct SupportTicketMessage {
    pub sender: String,
    pub message: String,
    pub timestamp: UtcTime,
}

/// A team's request for help from the organisers.
#[derive(Debug, Clone, PartialEq)]
pub struct SupportTicket {
    pub team_name: String,
    pub date: UtcTime,
    pub state: SupportTicketState,
    pub subject: String,
    pub messages: Vec<SupportTicketMessage>,
}

} // verus!
