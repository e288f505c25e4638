//! Redis key layout used by every CARVE service.
use vstd::prelude::*;
use crate::model::ToastNotification;
use crate::text::{decimal, u64_to_decimal};

verus! {

/// `a:b`
pub open spec fn join2(a: Seq<char>, b: Seq<char>) -> Seq<char> {
    a + seq![':'] + b
}

/// `a:b:c`
pub open spec fn join3(a: Seq<char>, b: Seq<char>, c: Seq<char>) -> Seq<char> {
    join2(join2(a, b), c)
}

/// `a:b:c:d`
pub open spec fn join4(a: Seq<char>, b: Seq<char>, c: Seq<char>, d: Seq<char>) -> Seq<char> {
    join2(join3(a, b, c), d)
}

/// Appends `:` and `part` to `key`.
fn push_part(key: &mut String, part: &str)
    ensures
        final(key)@ == join2(old(key)@, part@),
{
    key.append(":");
    key.append(part);
    proof { reveal_strlit(":"); }
}

/// Key of a competition-wide record: `<competition>:<suffix>`.
pub fn competition_key(competition_name: &str, suffix: &str) -> (key: String)
    ensures
        key@ == join2(competition_name@, suffix@),
{
    let mut key = competition_name.to_owned();
    push_part(&mut key, suffix);
    key
}

/// Key of a team's record: `<competition>:<team>:<suffix>`.
pub fn team_key(competition_name: &str, team_name: &str, suffix: &str) -> (key: String)
    ensures
        key@ == join3(competition_name@, team_name@, suffix@),
{
    let mut key = competition_key(competition_name, team_name);
    push_part(&mut key, suffix);
    key
}

/// Key of a box's record: `<competition>:<team>:<box>:<suffix>`.
pub fn box_key(competition_name: &str, team_name: &str, box_name: &str, suffix: &str) -> (key: String)
    ensures
        key@ == join4(competition_name@, team_name@, box_name@, suffix@),
{
    let mut key = team_key(competition_name, team_name, box_name);
    push_part(&mut key, suffix);
    key
}

/// The set of a team's unredeemed flags for one flag check:
/// `<competition>:<team>:<check>:flags`.
pub fn flag_set_key(competition_name: &str, team_name: &str, flag_check_name: &str) -> (key: String)
    ensures
        key@ == join4(competition_name@, team_name@, flag_check_name@, "flags"@),
{
    box_key(competition_name, team_name, flag_check_name, "flags")
}

/// The member a check probe records for one box: `<box>:<message>`.
pub fn probe_member(box_name: &str, message: &str) -> (m: String)
    ensures
        m@ == join2(box_name@, message@),
{
    competition_key(box_name, message)
}

/// The hash of VXLAN forwarding entries of one domain:
/// `<competition>:vxlan_fdb:<domain>`.
pub fn vxlan_fdb_key(competition_name: &str, domain: &str) -> (key: String)
    ensures
        key@ == join3(competition_name@, "vxlan_fdb"@, domain@),
{
    team_key(competition_name, "vxlan_fdb", domain)
}

/// The channel on which toasts for one user are published.
pub fn user_toast_channel(user: &str) -> (c: String)
    ensures
        c@ == join4("carve"@, "toasts"@, "user"@, user@),
{
    box_key("carve", "toasts", "user", user)
}

/// The channel on which toasts for one team are published.
pub fn team_toast_channel(team: &str) -> (c: String)
    ensures
        c@ == join4("carve"@, "toasts"@, "team"@, team@),
{
    box_key("carve", "toasts", "team", team)
}

/// The channel on which toasts for everyone are published.
pub fn global_toast_channel() -> (c: String)
    ensures
        c@ == "carve:toasts"@,
{
    "carve:toasts".to_owned()
}

/// The pattern matching every team's member set: `<competition>:*:users`.
pub fn team_members_pattern(competition_name: &str) -> (p: String)
    ensures
        p@ == join3(competition_name@, "*"@, "users"@),
{
    team_key(competition_name, "*", "users")
}

/// The pattern matching every team's ticket list:
/// `<competition>:*:support_tickets`.
pub fn support_tickets_pattern(competition_name: &str) -> (p: String)
    ensures
        p@ == join3(competition_name@, "*"@, "support_tickets"@),
{
    team_key(competition_name, "*", "support_tickets")
}

/// The address of a Redis database: `redis://<host>:<port>/<db>`.
pub fn redis_url(host: &str, port: u16, db: u8) -> (url: String)
    ensures
        url@ == "redis://"@ + join2(host@, decimal(port as nat)) + "/"@ + decimal(db as nat),
{
    let mut url = "redis://".to_owned();
    url.append(host);
    let p = u64_to_decimal(port as u64);
    push_part(&mut url, p.as_str());
    url.append("/");
    let d = u64_to_decimal(db as u64);
    url.append(d.as_str());
    proof {
        reveal_strlit("redis://");
        reveal_strlit("/");
    }
    url
}

/// The channel a toast is published on: the user's when it names a user,
/// else the team's when it names a team, else the channel for everyone.
pub open spec fn toast_channel_spec(user: Option<Seq<char>>, team: Option<Seq<char>>) -> Seq<char> {
    match user {
        Some(u) => join4("carve"@, "toasts"@, "user"@, u),
        None => match team {
            Some(t) => join4("carve"@, "toasts"@, "team"@, t),
            None => "carve:toasts"@,
        },
    }
}

/// The channel on which `toast` is published.
pub fn toast_channel(toast: &ToastNotification) -> (c: String)
    ensures
        c@ == toast_channel_spec(crate::model::opt_str(toast.user), crate::model::opt_str(toast.team)),
{
    match &toast.user {
        Some(u) => user_toast_channel(u.as_str()),
        None => match &toast.team {
            Some(t) => team_toast_channel(t.as_str()),
            None => global_toast_channel(),
        },
    }
}

/// The channels a listener subscribes to: the one for everyone, then the
/// user's and the team's where they are given.
pub fn toast_subscriptions(user: Option<&str>, team: Option<&str>) -> (channels: Vec<String>)
    ensures
        channels@.map_values(|c: String| c@) == seq!["carve:toasts"@]
            + (match user { Some(u) => seq![join4("carve"@, "toasts"@, "user"@, u@)], None => Seq::empty() })
            + (match team { Some(t) => seq![join4("carve"@, "toasts"@, "team"@, t@)], None => Seq::empty() }),
{
    let mut channels: Vec<String> = Vec::new();
    channels.push(global_toast_channel());
    let ghost first = channels@.map_values(|c: String| c@);
    assert(first =~= seq!["carve:toasts"@]);
    if let Some(u) = user {
        channels.push(user_toast_channel(u));
    }
    let ghost second = channels@.map_values(|c: String| c@);
    assert(second =~= seq!["carve:toasts"@]
        + (match user { Some(u) => seq![join4("carve"@, "toasts"@, "user"@, u@)], None => Seq::empty() }));
    if let Some(t) = team {
        channels.push(team_toast_channel(t));
    }
    assert(channels@.map_values(|c: String| c@) =~= second
        + (match team { Some(t) => seq![join4("carve"@, "toasts"@, "team"@, t@)], None => Seq::empty() }));
    channels
}

} // verus!
