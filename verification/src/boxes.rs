//! The teams' boxes: their DNS names, who may act on them, their stored
//! credentials, restore cooldowns and the commands sent to them.
use vstd::prelude::*;
use crate::api::{ApiError, api_error, is_error};
use crate::config::{Box, Competition, Team};
use crate::model::{QemuCommands, ToastNotification, ToastSeverity, opt_str};
use crate::scheduler::{box_hostname, box_hostname_spec};
use crate::text::{
    concat_all, decimal, i64_to_decimal, signed_decimal, split_char, split_spec, str_eq, to_lowercase, trim,
    trim_spec, unicode_lowercase,
};
use crate::validation::{ipv4_ok, is_valid_ipv4};

verus! {

// ---------------------------------------------------------------------------
// Names
// ---------------------------------------------------------------------------

/// The DNS names of a team's boxes:
/// `<box>.<team in lowercase>.<competition in lowercase>.hack`, one per
/// configured box, in configuration order.
pub fn team_box_names(competition: &Competition, team_index: usize) -> (names: Vec<String>)
    requires
        team_index < competition.teams@.len(),
    ensures
        names@.len() == competition.boxes@.len(),
        forall|i: int| 0 <= i < names@.len() ==> (#[trigger] names@[i])@ == box_hostname_spec(
            competition.boxes@[i].name@,
            unicode_lowercase(competition.teams@[team_index as int].name@),
            unicode_lowercase(competition.name@),
        ),
{
    let team = to_lowercase(competition.teams[team_index].name.as_str());
    let comp = to_lowercase(competition.name.as_str());
    let mut names: Vec<String> = Vec::new();
    let n = competition.boxes.len();
    for i in 0..n
        invariant
            n == competition.boxes@.len(),
            team@ == unicode_lowercase(competition.teams@[team_index as int].name@),
            comp@ == unicode_lowercase(competition.name@),
            names@.len() == i,
            forall|k: int| 0 <= k < i ==> (#[trigger] names@[k])@ == box_hostname_spec(
                competition.boxes@[k].name@,
                team@,
                comp@,
            ),
    {
        names.push(box_hostname(competition.boxes[i].name.as_str(), team.as_str(), comp.as_str()));
    }
    names
}

/// Whether some box of the configuration is called exactly `name`.
pub open spec fn box_configured(boxes: Seq<Box>, name: Seq<char>) -> bool {
    exists|i: int| 0 <= i < boxes.len() && (#[trigger] boxes[i]).name@ == name
}

/// Whether some team's name in lowercase is `name`.
pub open spec fn team_lowercase_named(teams: Seq<Team>, name: Seq<char>) -> bool {
    exists|i: int| 0 <= i < teams.len() && unicode_lowercase((#[trigger] teams[i]).name@) == name
}

/// Whether `name` is the DNS name of a box of the competition: at least
/// three dot-separated parts, the first a configured box, the second a
/// team's name in lowercase.
pub open spec fn box_name_known(competition: Competition, name: Seq<char>) -> bool {
    let parts = split_spec(name, '.');
    &&& parts.len() >= 3
    &&& box_configured(competition.boxes@, parts[0])
    &&& team_lowercase_named(competition.teams@, parts[1])
}

/// Whether `name` names a box of the competition.
pub fn box_exists(competition: &Competition, name: &str) -> (r: bool)
    ensures
        r == box_name_known(*competition, name@),
{
    let parts = split_char(name, '.');
    if parts.len() < 3 {
        return false;
    }
    assert(parts@[0]@ == split_spec(name@, '.')[0]);
    assert(parts@[1]@ == split_spec(name@, '.')[1]);
    let box_type = parts[0].as_str();
    let team_name = parts[1].as_str();
    let mut found_box = false;
    let nb = competition.boxes.len();
    for i in 0..nb
        invariant
            nb == competition.boxes@.len(),
            found_box == exists|j: int| 0 <= j < i && (#[trigger] competition.boxes@[j]).name@ == box_type@,
    {
        if str_eq(competition.boxes[i].name.as_str(), box_type) {
            found_box = true;
        }
    }
    let mut found_team = false;
    let nt = competition.teams.len();
    for i in 0..nt
        invariant
            nt == competition.teams@.len(),
            found_team == exists|j: int| 0 <= j < i && unicode_lowercase((#[trigger] competition.teams@[j]).name@) == team_name@,
    {
        let lower = to_lowercase(competition.teams[i].name.as_str());
        if str_eq(lower.as_str(), team_name) {
            found_team = true;
        }
    }
    found_box && found_team
}

/// The address shown for a box: what DNS resolved, "Unset" when it did not
/// resolve, "DNS Misconfiguration" when no DNS server is configured.
pub fn box_ip_display(dns_configured: bool, resolved: Option<String>) -> (s: String)
    ensures
        !dns_configured ==> s@ == "DNS Misconfiguration"@,
        dns_configured ==> s@ == (match resolved {
            Some(ip) => ip@,
            None => "Unset"@,
        }),
{
    if !dns_configured {
        "DNS Misconfiguration".to_owned()
    } else {
        match resolved {
            Some(ip) => ip,
            None => "Unset".to_owned(),
        }
    }
}

/// The address a DNS lookup printed, when it is an IPv4 address: the output
/// trimmed, non-empty and of four dot-separated bytes.
pub open spec fn resolved_address(output: Seq<char>) -> Option<Seq<char>> {
    let ip = trim_spec(output);
    if ip.len() > 0 && ipv4_ok(ip) {
        Some(ip)
    } else {
        None
    }
}

/// Reads the address out of what `dig +short` printed.
pub fn address_from_lookup(output: &str) -> (r: Option<String>)
    ensures
        opt_str(r) == resolved_address(output@),
{
    let ip = trim(output);
    let empty = ip.as_str().as_bytes().len() == 0;
    proof {
        if ip@.len() > 0 {
            vstd::utf8::encode_utf8_first_scalar(ip@);
            reveal_with_fuel(vstd::utf8::encode_utf8, 2);
        } else {
            assert(ip@ =~= Seq::<char>::empty());
        }
    }
    if !empty && is_valid_ipv4(ip.as_str()) {
        Some(ip)
    } else {
        None
    }
}

// ---------------------------------------------------------------------------
// Access
// ---------------------------------------------------------------------------

/// The box type and team named by a box's DNS name, or `refusal` when it
/// has fewer than `min_parts` dot-separated parts.
pub open spec fn box_parts(name: Seq<char>, min_parts: int) -> Option<(Seq<char>, Seq<char>)> {
    let parts = split_spec(name, '.');
    if parts.len() >= min_parts && parts.len() >= 2 {
        Some((parts[0], parts[1]))
    } else {
        None
    }
}

/// Splits a box's DNS name into box type and team; names with fewer than
/// `min_parts` parts are refused with `status` and `error`.
pub fn split_box_name(name: &str, min_parts: usize, status: u16, error: &str) -> (r: Result<(String, String), ApiError>)
    requires
        min_parts >= 2,
    ensures
        match box_parts(name@, min_parts as int) {
            Some(p) => r matches Ok(q) && q.0@ == p.0 && q.1@ == p.1,
            None => r matches Err(e) && is_error(e, status, error@),
        },
{
    let parts = split_char(name, '.');
    if parts.len() < min_parts {
        return Err(api_error(status, error));
    }
    assert(parts@[0]@ == split_spec(name@, '.')[0]);
    assert(parts@[1]@ == split_spec(name@, '.')[1]);
    Ok((parts[0].clone(), parts[1].clone()))
}

/// Checks that the session's team is the box's team.
pub fn check_team_access(session_team: Option<&str>, team_name: &str) -> (r: Result<(), ApiError>)
    ensures
        session_team is None ==> (r matches Err(e) && is_error(e, 401, "You must be logged in to access this box"@)),
        session_team matches Some(t) ==> (t@ != team_name@ <==> r is Err),
        session_team matches Some(t) && t@ != team_name@ ==> (r matches Err(e) && is_error(
            e,
            403,
            "You do not have permission to access this box"@,
        )),
{
    match session_team {
        None => Err(api_error(401, "You must be logged in to access this box")),
        Some(t) => if str_eq(t, team_name) {
            Ok(())
        } else {
            Err(api_error(403, "You do not have permission to access this box"))
        },
    }
}

/// The team an administrator asks credentials for.
pub fn required_team(team: Option<&str>) -> (r: Result<String, ApiError>)
    ensures
        team matches Some(t) ==> (r matches Ok(n) && n@ == t@),
        team is None ==> (r matches Err(e) && is_error(e, 400, "Team parameter is required for this endpoint"@)),
{
    match team {
        Some(t) => Ok(t.to_owned()),
        None => Err(api_error(400, "Team parameter is required for this endpoint")),
    }
}

// ---------------------------------------------------------------------------
// Credentials
// ---------------------------------------------------------------------------

/// How a box's credentials are stored: `<username>:<password>`.
pub open spec fn credentials_text(username: Seq<char>, password: Seq<char>) -> Seq<char> {
    username + seq![':'] + password
}

/// The stored form of a box's credentials.
pub fn credentials_value(username: &str, password: &str) -> (v: String)
    ensures
        v@ == credentials_text(username@, password@),
{
    let mut v = username.to_owned();
    v.append(":");
    v.append(password);
    proof { reveal_strlit(":"); }
    v
}

/// Position of the first `:` in `s`, if any.
pub open spec fn first_colon(s: Seq<char>) -> Option<int> {
    if exists|i: int| 0 <= i < s.len() && s[i] == ':' {
        Some(choose|i: int| 0 <= i < s.len() && s[i] == ':' && forall|j: int| 0 <= j < i ==> s[j] != ':')
    } else {
        None
    }
}

/// What the stored credentials read back as: the text before the first `:`
/// and the rest, or nothing when there is no `:`.
pub open spec fn parsed_credentials(s: Seq<char>) -> Option<(Seq<char>, Seq<char>)> {
    match first_colon(s) {
        Some(i) => Some((s.take(i), s.skip(i + 1))),
        None => None,
    }
}

/// Reads stored credentials back (as `splitn(2, ':')`).
pub fn parse_credentials(value: &str) -> (r: Option<(String, String)>)
    ensures
        match parsed_credentials(value@) {
            Some(p) => r matches Some(q) && q.0@ == p.0 && q.1@ == p.1,
            None => r is None,
        },
{
    let v = crate::text::chars_of(value);
    let n = v.len();
    let mut i: usize = 0;
    while i < n
        invariant
            n == v@.len(),
            v@ == value@,
            i <= n,
            forall|j: int| 0 <= j < i ==> v@[j] != ':',
        decreases n - i,
    {
        if v[i] == ':' {
            let ghost s = value@;
            assert(exists|k: int| 0 <= k < s.len() && s[k] == ':');
            let ghost c = first_colon(s)->0;
            assert(c == i) by {
                let w = choose|k: int| 0 <= k < s.len() && s[k] == ':' && forall|j: int| 0 <= j < k ==> s[j] != ':';
                assert(0 <= w < s.len() && s[w] == ':' && forall|j: int| 0 <= j < w ==> s[j] != ':') by {
                    assert(0 <= i < s.len() && s[i as int] == ':' && forall|j: int| 0 <= j < i ==> s[j] != ':');
                }
                if w < i {
                } else if w > i {
                    assert(s[i as int] != ':');
                }
            }
            let user = crate::text::string_of(&v.as_slice()[0..i]);
            let pass = crate::text::string_of(&v.as_slice()[i + 1..n]);
            assert(user@ =~= s.take(i as int));
            assert(pass@ =~= s.skip(i + 1));
            return Some((user, pass));
        }
        i = i + 1;
    }
    None
}

/// What was stored is read back: credentials whose username holds no `:`
/// come back unchanged.
pub proof fn lemma_credentials_round_trip(username: Seq<char>, password: Seq<char>)
    requires
        forall|i: int| 0 <= i < username.len() ==> username[i] != ':',
    ensures
        parsed_credentials(credentials_text(username, password)) == Some((username, password)),
{
    let s = credentials_text(username, password);
    let n = username.len() as int;
    assert(s[n] == ':');
    let c = choose|i: int| 0 <= i < s.len() && s[i] == ':' && forall|j: int| 0 <= j < i ==> s[j] != ':';
    assert(0 <= c < s.len() && s[c] == ':' && forall|j: int| 0 <= j < c ==> s[j] != ':') by {
        assert(0 <= n < s.len() && s[n] == ':' && forall|j: int| 0 <= j < n ==> s[j] != ':') by {
            assert forall|j: int| 0 <= j < n implies s[j] != ':' by {
                assert(s[j] == username[j]);
            }
        }
    }
    if c < n {
        assert(s[c] == username[c]);
    } else if c > n {
    }
    assert(c == n);
    assert(s.take(n) =~= username);
    assert(s.skip(n + 1) =~= password);
}

// ---------------------------------------------------------------------------
// Restore cooldowns and commands
// ---------------------------------------------------------------------------

/// Seconds between restores when the competition sets none.
pub const DEFAULT_RESTORE_COOLDOWN: u64 = 10;

/// The cooldown after a restore.
pub fn restore_cooldown(competition: &Competition) -> (s: u64)
    ensures
        s == (match competition.restore_cooldown {
            Some(c) => c,
            None => DEFAULT_RESTORE_COOLDOWN,
        }),
{
    match competition.restore_cooldown {
        Some(c) => c,
        None => DEFAULT_RESTORE_COOLDOWN,
    }
}

/// What a cooldown key's time to live says: -2 (no key) means no cooldown,
/// -1 (a key without expiry) a cooldown of zero seconds left, anything else
/// the seconds left.
pub fn cooldown_remaining(ttl: i64) -> (r: Option<i64>)
    ensures
        ttl == -2 ==> r is None,
        ttl == -1 ==> r == Some(0i64),
        ttl != -2 && ttl != -1 ==> r == Some(ttl),
{
    if ttl == -2 {
        None
    } else if ttl == -1 {
        Some(0)
    } else {
        Some(ttl)
    }
}

/// A restore is refused while a cooldown runs.
pub fn check_cooldown(remaining: Option<i64>) -> (r: Result<(), ApiError>)
    ensures
        remaining is None ==> r is Ok,
        remaining matches Some(c) ==> (r matches Err(e) && e.status == 429 && e.error@
            == "Restore command is on cooldown. Please wait "@ + signed_decimal(c as int) + " seconds."@),
{
    match remaining {
        None => Ok(()),
        Some(c) => {
            let secs = i64_to_decimal(c);
            let v = vec!["Restore command is on cooldown. Please wait ", secs.as_str(), " seconds."];
            let m = concat_all(&v);
            proof {
                reveal_with_fuel(crate::text::flatten, 4);
                assert(v@.map_values(|p: &str| p@) =~= seq!["Restore command is on cooldown. Please wait "@, secs@, " seconds."@]);
            }
            Err(ApiError { status: 429, error: m })
        },
    }
}

/// The name of a command as the toast shows it.
pub fn command_name(command: QemuCommands) -> (s: &'static str)
    ensures
        command == QemuCommands::Restore ==> s@ == "Restore"@,
        command == QemuCommands::Stop ==> s@ == "Stop"@,
        command == QemuCommands::Snapshot ==> s@ == "Snapshot"@,
{
    match command {
        QemuCommands::Restore => "Restore",
        QemuCommands::Stop => "Stop",
        QemuCommands::Snapshot => "Snapshot",
    }
}

/// The warning a team gets when one of its boxes is sent a command.
pub fn box_event_toast(team_name: &str, box_name: &str, command: QemuCommands) -> (t: ToastNotification)
    ensures
        t.title@ == "Box Event"@,
        t.message@ == "Box '"@ + box_name@ + "' has received a '"@ + command_name_spec(command) + "' command."@,
        t.severity == ToastSeverity::Warning,
        t.user is None,
        opt_str(t.team) == Some(team_name@),
        t.sound_effect is None,
{
    let name = command_name(command);
    let v = vec!["Box '", box_name, "' has received a '", name, "' command."];
    let message = concat_all(&v);
    proof {
        reveal_with_fuel(crate::text::flatten, 6);
        assert(v@.map_values(|p: &str| p@) =~= seq!["Box '"@, box_name@, "' has received a '"@, name@, "' command."@]);
    }
    ToastNotification {
        title: "Box Event".to_owned(),
        message,
        severity: ToastSeverity::Warning,
        user: None,
        team: Some(team_name.to_owned()),
        sound_effect: None,
    }
}

/// The name of a command.
pub open spec fn command_name_spec(command: QemuCommands) -> Seq<char> {
    match command {
        QemuCommands::Restore => "Restore"@,
        QemuCommands::Stop => "Stop"@,
        QemuCommands::Snapshot => "Snapshot"@,
    }
}

/// Whether a received command is one the listener waits for.
pub fn wanted_command(wanted: &Vec<QemuCommands>, command: QemuCommands) -> (r: bool)
    ensures
        r == wanted@.contains(command),
{
    let n = wanted.len();
    for i in 0..n
        invariant
            n == wanted@.len(),
            forall|j: int| 0 <= j < i ==> wanted@[j] != command,
    {
        if wanted[i] == command {
            return true;
        }
    }
    false
}

/// A team's console code: the stored one, else `fresh`, which must then be
/// stored.
pub fn console_code(stored: Option<String>, fresh: String) -> (r: (String, bool))
    ensures
        stored matches Some(c) ==> r.0@ == c@ && !r.1,
        stored is None ==> r.0@ == fresh@ && r.1,
{
    match stored {
        Some(c) => (c, false),
        None => (fresh, true),
    }
}

} // verus!
