//! Flags that teams find on boxes and redeem for points.
use vstd::prelude::*;
use crate::model::{CheckCurrentState, ToastNotification, ToastSeverity, opt_str, strs};
use crate::random::{generate_lowercase_string, lowercase_chars};
use crate::scoring::flag_redeemed_state;

verus! {

/// Number of random letters between the braces of a flag.
pub const FLAG_SECRET_LEN: usize = 8;

/// A flag of `competition`: its name, then the secret in braces.
pub open spec fn flag_text(competition: Seq<char>, secret: Seq<char>) -> Seq<char> {
    competition + "{"@ + secret + "}"@
}

/// Whether `secret` could be the secret of a freshly made flag.
pub open spec fn valid_secret(secret: Seq<char>) -> bool {
    &&& secret.len() == FLAG_SECRET_LEN
    &&& forall|i: int| 0 <= i < secret.len() ==> lowercase_chars().contains(#[trigger] secret[i])
}

/// The flag made of `competition_name` and `secret`.
pub fn flag_value(competition_name: &str, secret: &str) -> (flag: String)
    ensures
        flag@ == flag_text(competition_name@, secret@),
{
    let v = vec![competition_name, "{", secret, "}"];
    let flag = crate::text::concat_all(&v);
    proof {
        reveal_with_fuel(crate::text::flatten, 5);
        assert(v@.map_values(|p: &str| p@) =~= seq![competition_name@, "{"@, secret@, "}"@]);
    }
    flag
}

/// A fresh flag for `competition_name`, with eight random lowercase letters
/// as its secret.
pub fn new_flag(competition_name: &str) -> (flag: String)
    ensures
        exists|secret: Seq<char>| valid_secret(secret) && flag@ == flag_text(competition_name@, secret),
{
    let secret = generate_lowercase_string(FLAG_SECRET_LEN);
    let flag = flag_value(competition_name, secret.as_str());
    assert(valid_secret(secret@));
    flag
}

/// What a successful redemption records and announces.
pub struct FlagRedemption {
    /// The new current state of the flag check for the team.
    pub state: CheckCurrentState,
    /// The announcement to the team.
    pub toast: ToastNotification,
}

/// The toast telling a team that it redeemed a flag.
pub fn flag_redeemed_toast(team_name: &str, flag: &str) -> (t: ToastNotification)
    ensures
        t.title@ == "Flag Redeemed"@,
        t.message@ == "Team '"@ + team_name@ + "' redeemed the flag '"@ + flag@ + "'."@,
        t.severity == ToastSeverity::Info,
        t.user is None,
        opt_str(t.team) == Some(team_name@),
        opt_str(t.sound_effect) == Some("flag_redeemed"@),
{
    let v = vec!["Team '", team_name, "' redeemed the flag '", flag, "'."];
    let message = crate::text::concat_all(&v);
    proof {
        reveal_with_fuel(crate::text::flatten, 6);
        assert(v@.map_values(|p: &str| p@) =~= seq!["Team '"@, team_name@, "' redeemed the flag '"@, flag@, "'."@]);
    }
    ToastNotification {
        title: "Flag Redeemed".to_owned(),
        message,
        severity: ToastSeverity::Info,
        user: None,
        team: Some(team_name.to_owned()),
        sound_effect: Some("flag_redeemed".to_owned()),
    }
}

/// What redeeming `flag` leads to, given whether it was among the team's
/// unredeemed flags: nothing when it was not; else the flag check's new
/// state and the toast.
pub fn redeem_outcome(team_name: &str, flag: &str, exists: bool) -> (r: Option<FlagRedemption>)
    ensures
        r is Some <==> exists,
        r matches Some(red) ==> {
            &&& red.state.success
            &&& red.state.number_of_failures == 0
            &&& strs(red.state.message@) == seq!["Flag redeemed: "@ + flag@]
            &&& red.state.success_fraction == (1u64, 1u64)
            &&& red.state.passing_boxes@.len() == 0
            &&& red.toast.title@ == "Flag Redeemed"@
            &&& red.toast.message@ == "Team '"@ + team_name@ + "' redeemed the flag '"@ + flag@ + "'."@
            &&& red.toast.severity == ToastSeverity::Info
            &&& red.toast.user is None
            &&& opt_str(red.toast.team) == Some(team_name@)
            &&& opt_str(red.toast.sound_effect) == Some("flag_redeemed"@)
        },
{
    if exists {
        Some(FlagRedemption { state: flag_redeemed_state(flag), toast: flag_redeemed_toast(team_name, flag) })
    } else {
        None
    }
}

} // verus!
