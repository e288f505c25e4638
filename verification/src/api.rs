//! The decisions of the web API: who may call what, and what each refusal
//! is answered. The server itself (sessions, HTTP, Redis) only carries them
//! out.
use vstd::prelude::*;
use crate::config::{Competition, RegistrationType, Team};
use crate::model::{CheckCurrentState, CompetitionStatus, IdentitySources, User, opt_str, strs};
use crate::text::{contains, contains_seq, has_prefix, starts_with, str_eq, trim, trim_spec};

verus! {

// ---------------------------------------------------------------------------
// Messages exchanged with clients
// ---------------------------------------------------------------------------

/// A request to delete an API key.
#[derive(Debug)]
pub struct DeleteApiKeyRequest {
    pub api_key: String,
}

/// A freshly generated API key.
#[derive(Debug)]
pub struct ApiKeyResponse {
    pub api_key: String,
}

/// Every API key.
#[derive(Debug)]
pub struct ApiKeysListResponse {
    pub api_keys: Vec<String>,
}

/// The competition's status, as text.
#[derive(Debug)]
pub struct CompetitionResponse {
    pub status: String,
}

/// What the identity provider hands back to the login callback.
#[derive(Debug)]
pub struct OauthCallBackQuery {
    pub code: String,
    pub state: String,
}

/// A refusal: the HTTP status and the text sent as `{"error": ...}`.
#[derive(Debug)]
pub struct ApiError {
    pub status: u16,
    pub error: String,
}

/// The refusal with `status` and `error`.
pub fn api_error(status: u16, error: &str) -> (e: ApiError)
    ensures
        e.status == status,
        e.error@ == error@,
{
    ApiError { status, error: error.to_owned() }
}

/// `e` has the given status and text.
pub open spec fn is_error(e: ApiError, status: u16, text: Seq<char>) -> bool {
    e.status == status && e.error@ == text
}

// ---------------------------------------------------------------------------
// Sessions and tokens
// ---------------------------------------------------------------------------

/// A session belongs to a logged-in user when it holds a non-empty user
/// name.
pub fn session_valid(username: Option<&str>) -> (r: bool)
    ensures
        r == (username matches Some(u) && u@.len() > 0),
{
    match username {
        Some(u) => u.as_bytes().len() > 0,
        None => false,
    }
}

/// A session may use the administration routes when it holds a user name
/// and the administrator flag is set.
pub fn admin_session_valid(username: Option<&str>, is_admin: Option<bool>) -> (r: bool)
    ensures
        r == (username is Some && is_admin == Some(true)),
{
    username.is_some() && is_admin == Some(true)
}

/// What an `Authorization` header must hold for the internal routes:
/// `Bearer ` followed by the secret key.
pub open spec fn bearer_accepted(header: Option<Seq<char>>, secret: Option<Seq<char>>) -> bool {
    match (header, secret) {
        (Some(h), Some(s)) => has_prefix(h, "Bearer "@) && h.skip(7) == s,
        _ => false,
    }
}

/// Whether the `Authorization` header carries the secret key as a bearer
/// token.
pub fn bearer_token_matches(header: Option<&str>, secret: Option<&str>) -> (r: bool)
    ensures
        r == bearer_accepted(opt_view(header), opt_view(secret)),
{
    match (header, secret) {
        (Some(h), Some(s)) => {
            proof { reveal_strlit("Bearer "); }
            if starts_with(h, "Bearer ") {
                let hv = crate::text::chars_of(h);
                let token = crate::text::string_of(&hv.as_slice()[7..hv.len()]);
                assert(token@ == h@.skip(7));
                str_eq(token.as_str(), s)
            } else {
                false
            }
        },
        _ => false,
    }
}

/// The view of an optional string slice.
pub open spec fn opt_view(o: Option<&str>) -> Option<Seq<char>> {
    match o {
        Some(s) => Some(s@),
        None => None,
    }
}

// ---------------------------------------------------------------------------
// Logging in
// ---------------------------------------------------------------------------

/// Whether the competition lets users log in with `source`.
pub fn source_enabled(competition: &Competition, source: IdentitySources) -> (r: bool)
    ensures
        r == competition.identity_sources@.contains(source),
{
    let n = competition.identity_sources.len();
    for i in 0..n
        invariant
            n == competition.identity_sources@.len(),
            forall|j: int| 0 <= j < i ==> competition.identity_sources@[j] != source,
    {
        if competition.identity_sources[i] == source {
            return true;
        }
    }
    false
}

/// Where the login callback sends the browser before contacting the
/// identity provider, or `None` to go on: single sign-on must be enabled,
/// the session must hold the PKCE verifier and the CSRF token, and the
/// returned state must equal the token.
pub open spec fn callback_refusal(
    oidc_enabled: bool,
    pkce_verifier: Option<Seq<char>>,
    csrf_token: Option<Seq<char>>,
    state: Seq<char>,
) -> Option<Seq<char>> {
    if !oidc_enabled {
        Some("/login?error=internal_error"@)
    } else if pkce_verifier is None {
        Some("/login?error=pkce"@)
    } else if csrf_token is None || csrf_token != Some(state) {
        Some("/login?error=csrf"@)
    } else {
        None
    }
}

/// Checks the login callback's preconditions.
pub fn check_callback(oidc_enabled: bool, pkce_verifier: Option<&str>, csrf_token: Option<&str>, state: &str) -> (r: Option<
    String,
>)
    ensures
        opt_str(r) == callback_refusal(oidc_enabled, opt_view(pkce_verifier), opt_view(csrf_token), state@),
{
    if !oidc_enabled {
        return Some("/login?error=internal_error".to_owned());
    }
    if pkce_verifier.is_none() {
        return Some("/login?error=pkce".to_owned());
    }
    match csrf_token {
        None => Some("/login?error=csrf".to_owned()),
        Some(t) => if str_eq(t, state) {
            None
        } else {
            Some("/login?error=csrf".to_owned())
        },
    }
}

/// A claim read from the identity provider, or "unknown" when it is missing.
pub fn claim_or_unknown(claim: Option<&str>) -> (s: String)
    ensures
        s@ == (match claim {
            Some(c) => c@,
            None => "unknown"@,
        }),
{
    match claim {
        Some(c) => c.to_owned(),
        None => "unknown".to_owned(),
    }
}

/// Whether some team is called exactly `name`.
pub open spec fn is_team_name(teams: Seq<Team>, name: Seq<char>) -> bool {
    exists|i: int| 0 <= i < teams.len() && (#[trigger] teams[i]).name@ == name
}

/// The team and administrator flag that single sign-on gives a user, from
/// the groups the identity provider lists (`None` for a group that is not
/// text). Groups are read in order; with registration by single sign-on
/// only, the first group named like a team becomes the user's team if they
/// have none, and reading stops there. A group equal to the administrator
/// group makes the user an administrator.
pub open spec fn oidc_membership(
    groups: Seq<Option<Seq<char>>>,
    teams: Seq<Team>,
    oidc_only: bool,
    admin_group: Option<Seq<char>>,
    team: Option<Seq<char>>,
    is_admin: bool,
) -> (Option<Seq<char>>, bool)
    decreases groups.len(),
{
    if groups.len() == 0 {
        (team, is_admin)
    } else {
        match groups[0] {
            None => oidc_membership(groups.drop_first(), teams, oidc_only, admin_group, team, is_admin),
            Some(g) => if oidc_only && is_team_name(teams, g) && team is None {
                (Some(g), is_admin)
            } else {
                oidc_membership(
                    groups.drop_first(),
                    teams,
                    oidc_only,
                    admin_group,
                    team,
                    is_admin || admin_group == Some(g),
                )
            },
        }
    }
}

/// The view of a list of optional strings.
pub open spec fn opt_strs(v: Seq<Option<String>>) -> Seq<Option<Seq<char>>> {
    v.map_values(|o: Option<String>| opt_str(o))
}

/// Whether some team is called exactly `name`.
pub fn team_name_exists(teams: &Vec<Team>, name: &str) -> (r: bool)
    ensures
        r == is_team_name(teams@, name@),
{
    let n = teams.len();
    for i in 0..n
        invariant
            n == teams@.len(),
            forall|j: int| 0 <= j < i ==> teams@[j].name@ != name@,
    {
        if str_eq(teams[i].name.as_str(), name) {
            assert(teams@[i as int].name@ == name@);
            return true;
        }
    }
    false
}

/// The team and administrator flag of a user who logs in by single sign-on;
/// `current_team` is the team they are registered with, if any.
pub fn resolve_oidc_membership(competition: &Competition, groups: &Vec<Option<String>>, current_team: Option<String>) -> (r: (
    Option<String>,
    bool,
))
    ensures
        (opt_str(r.0), r.1) == oidc_membership(
            opt_strs(groups@),
            competition.teams@,
            competition.registration_type == RegistrationType::OidcOnly,
            opt_str(competition.admin_group),
            opt_str(current_team),
            false,
        ),
{
    let oidc_only = competition.registration_type == RegistrationType::OidcOnly;
    let ghost all = opt_strs(groups@);
    let ghost admin = opt_str(competition.admin_group);
    let mut team = current_team;
    let mut is_admin = false;
    let n = groups.len();
    let mut i: usize = 0;
    assert(all.skip(0) =~= all);
    while i < n
        invariant
            n == groups@.len(),
            i <= n,
            all == opt_strs(groups@),
            admin == opt_str(competition.admin_group),
            oidc_only == (competition.registration_type == RegistrationType::OidcOnly),
            oidc_membership(all, competition.teams@, oidc_only, admin, opt_str(current_team), false)
                == oidc_membership(all.skip(i as int), competition.teams@, oidc_only, admin, opt_str(team), is_admin),
        decreases n - i,
    {
        assert(all.skip(i as int).drop_first() =~= all.skip(i + 1));
        assert(all.skip(i as int)[0] == opt_str(groups@[i as int]));
        match &groups[i] {
            None => {},
            Some(g) => {
                if oidc_only && team_name_exists(&competition.teams, g.as_str()) && team.is_none() {
                    return (Some(g.clone()), is_admin);
                }
                let is_admin_group = match &competition.admin_group {
                    Some(a) => str_eq(g.as_str(), a.as_str()),
                    None => false,
                };
                if is_admin_group {
                    is_admin = true;
                }
            },
        }
        i = i + 1;
    }
    assert(all.skip(i as int) =~= Seq::<Option<Seq<char>>>::empty());
    (team, is_admin)
}

/// A user as single sign-on registers them.
pub fn oidc_user(username: &str, email: &str, team: Option<String>, is_admin: bool) -> (u: User)
    ensures
        u.username@ == username@,
        u.email@ == email@,
        opt_str(u.team_name) == opt_str(team),
        u.is_admin == is_admin,
        u.identity_sources@ == seq![IdentitySources::OIDC],
{
    User {
        username: username.to_owned(),
        email: email.to_owned(),
        team_name: team,
        is_admin,
        identity_sources: vec![IdentitySources::OIDC],
    }
}

/// Where a password login or registration sends a browser before looking
/// at the credentials, or `None` to go on: `refused` when passwords are not
/// enabled, home when the session already holds a user.
pub open spec fn password_route_refusal(enabled: bool, session_user: Option<Seq<char>>, refused: Seq<char>) -> Option<
    Seq<char>,
> {
    if !enabled {
        Some(refused)
    } else if session_user matches Some(u) && u.len() > 0 {
        Some("/"@)
    } else {
        None
    }
}

/// Checks a password login or registration before anything is looked up.
pub fn check_password_route(enabled: bool, session_user: Option<&str>, refused: &str) -> (r: Option<String>)
    ensures
        opt_str(r) == password_route_refusal(enabled, opt_view(session_user), refused@),
{
    if !enabled {
        Some(refused.to_owned())
    } else if session_valid(session_user) {
        Some("/".to_owned())
    } else {
        None
    }
}

/// The outcome of a lookup in the store.
#[derive(Clone, Copy, PartialEq, Eq, Structural)]
pub enum Lookup {
    Found,
    Missing,
    Failed,
}

/// Where a password login sends the browser once the credentials were
/// checked.
pub fn login_location(outcome: Lookup) -> (loc: &'static str)
    ensures
        outcome == Lookup::Found ==> loc@ == "/"@,
        outcome == Lookup::Failed ==> loc@ == "/login?error=internal_error"@,
        outcome == Lookup::Missing ==> loc@ == "/login?error=invalid_credentials"@,
{
    match outcome {
        Lookup::Found => "/",
        Lookup::Failed => "/login?error=internal_error",
        Lookup::Missing => "/login?error=invalid_credentials",
    }
}

/// A user who registers with a password.
pub fn local_user(username: &str, email: &str, team: Option<String>) -> (u: User)
    ensures
        u.username@ == username@,
        u.email@ == email@,
        opt_str(u.team_name) == opt_str(team),
        !u.is_admin,
        u.identity_sources@ == seq![IdentitySources::LocalUserPassword],
{
    User {
        username: username.to_owned(),
        email: email.to_owned(),
        team_name: team,
        is_admin: false,
        identity_sources: vec![IdentitySources::LocalUserPassword],
    }
}

/// Where a registration sends the browser: an existing name is refused,
/// then a failed registration, then a password that could not be set.
pub open spec fn registration_location(name_taken: bool, registered: bool, password_set: bool) -> Seq<char> {
    if name_taken {
        "/register?error=username_exists"@
    } else if !registered {
        "/register?error=internal_error"@
    } else if !password_set {
        "/register?error=password_requirements_not_met"@
    } else {
        "/login?success=registered"@
    }
}

/// Where a registration ends.
pub fn registration_outcome(name_taken: bool, registered: bool, password_set: bool) -> (loc: &'static str)
    ensures
        loc@ == registration_location(name_taken, registered, password_set),
{
    if name_taken {
        "/register?error=username_exists"
    } else if !registered {
        "/register?error=internal_error"
    } else if !password_set {
        "/register?error=password_requirements_not_met"
    } else {
        "/login?success=registered"
    }
}

// ---------------------------------------------------------------------------
// Teams and users
// ---------------------------------------------------------------------------

/// The id of the team called exactly `team_name` (counting from 1), if a
/// name is given and some team has it.
pub fn user_team_id(competition: &Competition, team_name: Option<&str>) -> (r: Option<u64>)
    ensures
        match team_name {
            None => r is None,
            Some(t) => match r {
                Some(id) => 1 <= id <= competition.teams@.len() && competition.teams@[id - 1].name@ == t@
                    && forall|j: int| 0 <= j < id - 1 ==> competition.teams@[j].name@ != t@,
                None => !is_team_name(competition.teams@, t@),
            },
        },
{
    match team_name {
        None => None,
        Some(t) => {
            let n = competition.teams.len();
            for i in 0..n
                invariant
                    n == competition.teams@.len(),
                    team_name == Some(t),
                    forall|j: int| 0 <= j < i ==> competition.teams@[j].name@ != t@,
            {
                if str_eq(competition.teams[i].name.as_str(), t) {
                    return Some(i as u64 + 1);
                }
            }
            None
        },
    }
}

/// The position of the team with `team_id` (counting from 1), or "Team not
/// found".
pub fn team_for_id(competition: &Competition, team_id: u64) -> (r: Result<usize, ApiError>)
    ensures
        1 <= team_id <= competition.teams@.len() ==> r == Ok::<usize, ApiError>((team_id - 1) as usize),
        !(1 <= team_id <= competition.teams@.len()) ==> (r matches Err(e) && is_error(e, 404, "Team not found"@)),
{
    if team_id == 0 || team_id > competition.teams.len() as u64 {
        Err(api_error(404, "Team not found"))
    } else {
        Ok((team_id - 1) as usize)
    }
}

/// The user a team switch registers: the session's user name and e-mail
/// (empty when missing) and administrator flag (false when missing), on the
/// new team, adding no login method.
pub fn switched_user(username: &str, email: Option<&str>, is_admin: Option<bool>, team_name: &str) -> (u: User)
    ensures
        u.username@ == username@,
        u.email@ == (match email {
            Some(e) => e@,
            None => Seq::<char>::empty(),
        }),
        opt_str(u.team_name) == Some(team_name@),
        u.is_admin == (is_admin == Some(true)),
        u.identity_sources@.len() == 0,
{
    User {
        username: username.to_owned(),
        email: match email {
            Some(e) => e.to_owned(),
            None => String::new(),
        },
        team_name: Some(team_name.to_owned()),
        is_admin: is_admin == Some(true),
        identity_sources: Vec::new(),
    }
}

/// Checks that a team switch comes from a logged-in user.
pub fn check_switch_session(username: Option<&str>) -> (r: Result<(), ApiError>)
    ensures
        r is Ok <==> (username matches Some(u) && u@.len() > 0),
        r matches Err(e) ==> is_error(e, 400, "User not logged in"@),
{
    if session_valid(username) {
        Ok(())
    } else {
        Err(api_error(400, "User not logged in"))
    }
}

/// What a join code lookup leads to for a team switch.
pub fn join_code_team(found: Result<Option<String>, ()>) -> (r: Result<String, ApiError>)
    ensures
        found matches Ok(Some(t)) ==> (r matches Ok(n) && n@ == t@),
        found matches Ok(None) ==> (r matches Err(e) && is_error(e, 404, "Team not found"@)),
        found is Err ==> (r matches Err(e) && is_error(e, 500, "Failed to check team join code"@)),
{
    match found {
        Ok(Some(t)) => Ok(t),
        Ok(None) => Err(api_error(404, "Team not found")),
        Err(()) => Err(api_error(500, "Failed to check team join code")),
    }
}

/// Checks that a player may make a join code for their team: they must be
/// on a team and players must be allowed to.
pub fn check_player_join_code(team_name: Option<&str>, allowed: bool) -> (r: Result<(), ApiError>)
    ensures
        !(team_name matches Some(t) && t@.len() > 0) ==> (r matches Err(e) && is_error(e, 400, "User is not in a team"@)),
        (team_name matches Some(t) && t@.len() > 0) && !allowed ==> (r matches Err(e) && is_error(
            e,
            403,
            "Non-admins are not allowed to generate join codes"@,
        )),
        (team_name matches Some(t) && t@.len() > 0) && allowed ==> r is Ok,
{
    if !session_valid(team_name) {
        Err(api_error(400, "User is not in a team"))
    } else if !allowed {
        Err(api_error(403, "Non-admins are not allowed to generate join codes"))
    } else {
        Ok(())
    }
}

/// Checks that an administrator named the team for a join code.
pub fn check_admin_join_code(team_name: &str) -> (r: Result<(), ApiError>)
    ensures
        r is Ok <==> team_name@.len() > 0,
        r matches Err(e) ==> is_error(e, 400, "Admin must provide a team name"@),
{
    if team_name.as_bytes().len() == 0 {
        Err(api_error(400, "Admin must provide a team name"))
    } else {
        Ok(())
    }
}

/// Checks the key of an API key deletion.
pub fn check_api_key_deletion(request: &DeleteApiKeyRequest) -> (r: Result<(), ApiError>)
    ensures
        r is Ok <==> request.api_key@.len() > 0,
        r matches Err(e) ==> is_error(e, 400, "API key cannot be empty"@),
{
    if request.api_key.as_str().as_bytes().len() == 0 {
        Err(api_error(400, "API key cannot be empty"))
    } else {
        Ok(())
    }
}

/// Checks that a team asks for its console code while the competition
/// runs.
pub fn check_console_code_request(team_name: Option<&str>, status: CompetitionStatus) -> (r: Result<(), ApiError>)
    ensures
        team_name is None ==> (r matches Err(e) && is_error(e, 400, "Team name not found in session"@)),
        team_name is Some && status != CompetitionStatus::Active ==> (r matches Err(e) && is_error(
            e,
            400,
            "Competition is not active"@,
        )),
        team_name is Some && status == CompetitionStatus::Active ==> r is Ok,
{
    if team_name.is_none() {
        Err(api_error(400, "Team name not found in session"))
    } else if status != CompetitionStatus::Active {
        Err(api_error(400, "Competition is not active"))
    } else {
        Ok(())
    }
}

/// Whether any of the users is an administrator.
pub fn any_admin(users: &Vec<User>) -> (r: bool)
    ensures
        r == exists|i: int| 0 <= i < users@.len() && (#[trigger] users@[i]).is_admin,
{
    let n = users.len();
    for i in 0..n
        invariant
            n == users@.len(),
            forall|j: int| 0 <= j < i ==> !users@[j].is_admin,
    {
        if users[i].is_admin {
            return true;
        }
    }
    false
}

/// The administrator created when none exists.
pub fn default_admin_user() -> (u: User)
    ensures
        u.username@ == "admin"@,
        u.email@ == "admin@example.com"@,
        u.team_name is None,
        u.is_admin,
        u.identity_sources@ == seq![IdentitySources::LocalUserPassword],
{
    User {
        username: "admin".to_owned(),
        email: "admin@example.com".to_owned(),
        team_name: None,
        is_admin: true,
        identity_sources: vec![IdentitySources::LocalUserPassword],
    }
}

// ---------------------------------------------------------------------------
// Flags
// ---------------------------------------------------------------------------

/// The team of the user who submits a flag.
pub fn submitter_team(user: &User) -> (r: Result<String, ApiError>)
    ensures
        user.team_name matches Some(t) ==> (r matches Ok(n) && n@ == t@),
        user.team_name is None ==> (r matches Err(e) && is_error(e, 400, "User is not on a team"@)),
{
    match &user.team_name {
        Some(t) => Ok(t.clone()),
        None => Err(api_error(400, "User is not on a team")),
    }
}

/// The position of the flag check called exactly `name`, or "Flag check
/// not found".
pub fn find_flag_check(competition: &Competition, name: &str) -> (r: Result<usize, ApiError>)
    ensures
        match r {
            Ok(i) => i < competition.flag_checks@.len() && competition.flag_checks@[i as int].name@ == name@
                && forall|j: int| 0 <= j < i ==> competition.flag_checks@[j].name@ != name@,
            Err(e) => is_error(e, 404, "Flag check not found"@)
                && forall|j: int| 0 <= j < competition.flag_checks@.len() ==> competition.flag_checks@[j].name@ != name@,
        },
{
    let n = competition.flag_checks.len();
    for i in 0..n
        invariant
            n == competition.flag_checks@.len(),
            forall|j: int| 0 <= j < i ==> competition.flag_checks@[j].name@ != name@,
    {
        if str_eq(competition.flag_checks[i].name.as_str(), name) {
            return Ok(i);
        }
    }
    Err(api_error(404, "Flag check not found"))
}

/// Flags are only taken while the competition runs.
pub fn check_flag_window(status: CompetitionStatus) -> (r: Result<(), ApiError>)
    ensures
        r is Ok <==> status == CompetitionStatus::Active,
        r matches Err(e) ==> is_error(e, 400, "Flag submission is only allowed while the competition is active."@),
{
    if status == CompetitionStatus::Active {
        Ok(())
    } else {
        Err(api_error(400, "Flag submission is only allowed while the competition is active."))
    }
}

/// The answer to a flag submission that was looked up: its HTTP status,
/// whether it was accepted, and the message.
pub fn redemption_answer(redeemed: bool) -> (r: (u16, bool, &'static str))
    ensures
        redeemed ==> r.0 == 200 && r.1 && r.2@ == "Flag accepted!"@,
        !redeemed ==> r.0 == 400 && !r.1 && r.2@ == "Incorrect or already redeemed flag."@,
{
    if redeemed {
        (200, true, "Flag accepted!")
    } else {
        (400, false, "Incorrect or already redeemed flag.")
    }
}

// ---------------------------------------------------------------------------
// Support tickets
// ---------------------------------------------------------------------------

/// The team and user behind a request about support tickets; both must be
/// in the session.
pub fn ticket_requester(team_name: Option<String>, username: Option<String>) -> (r: Result<(String, String), ApiError>)
    ensures
        team_name is None ==> (r matches Err(e) && is_error(e, 401, "Team name not found in session"@)),
        team_name is Some && username is None ==> (r matches Err(e) && is_error(
            e,
            401,
            "Username not found in session"@,
        )),
        team_name matches Some(t) ==> (username matches Some(u) ==> (r matches Ok(p) && p.0@ == t@ && p.1@ == u@)),
{
    match team_name {
        None => Err(api_error(401, "Team name not found in session")),
        Some(t) => match username {
            None => Err(api_error(401, "Username not found in session")),
            Some(u) => Ok((t, u)),
        },
    }
}

/// A message must hold more than whitespace.
pub fn check_message_not_empty(message: &str) -> (r: Result<(), ApiError>)
    ensures
        r is Ok <==> trim_spec(message@).len() > 0,
        r matches Err(e) ==> is_error(e, 400, "Message cannot be empty"@),
{
    let t = trim(message);
    if t.as_str().as_bytes().len() == 0 {
        assert(t@.len() == 0) by {
            if t@.len() > 0 {
                assert(vstd::utf8::encode_utf8(t@).len() > 0) by {
                    reveal_with_fuel(vstd::utf8::encode_utf8, 2);
                    vstd::utf8::encode_utf8_first_scalar(t@);
                }
            }
        }
        Err(api_error(400, "Message cannot be empty"))
    } else {
        assert(t@.len() > 0) by {
            if t@.len() == 0 {
                assert(t@ =~= Seq::<char>::empty());
            }
        }
        Ok(())
    }
}

/// The refusal for a failed ticket operation: "Support ticket not found"
/// when the error says "not found", else `failure` with status 500.
pub fn ticket_failure(error_text: &str, failure: &str) -> (e: ApiError)
    ensures
        contains_seq(error_text@, "not found"@) ==> is_error(e, 404, "Support ticket not found"@),
        !contains_seq(error_text@, "not found"@) ==> is_error(e, 500, failure@),
{
    proof { reveal_strlit("not found"); }
    if contains(error_text, "not found") {
        api_error(404, "Support ticket not found")
    } else {
        api_error(500, failure)
    }
}

/// Only administrators may change a ticket's status.
pub fn check_status_change(is_admin: bool) -> (r: Result<(), ApiError>)
    ensures
        r is Ok <==> is_admin,
        r matches Err(e) ==> is_error(e, 403, "Only administrators can update ticket status"@),
{
    if is_admin {
        Ok(())
    } else {
        Err(api_error(403, "Only administrators can update ticket status"))
    }
}

/// The position of the first ticket with `ticket_id` among all teams'
/// tickets.
pub fn find_ticket<T>(tickets: &Vec<(String, u64, T)>, ticket_id: u64) -> (r: Option<usize>)
    ensures
        match r {
            Some(i) => i < tickets@.len() && tickets@[i as int].1 == ticket_id
                && forall|j: int| 0 <= j < i ==> tickets@[j].1 != ticket_id,
            None => forall|j: int| 0 <= j < tickets@.len() ==> tickets@[j].1 != ticket_id,
        },
{
    let n = tickets.len();
    for i in 0..n
        invariant
            n == tickets@.len(),
            forall|j: int| 0 <= j < i ==> tickets@[j].1 != ticket_id,
    {
        if tickets[i].1 == ticket_id {
            return Some(i);
        }
    }
    None
}

/// The checks whose scores a score history sums, or "Scoring check not
/// found".
pub fn scoring_check_names(competition: &Competition, name: Option<&str>) -> (r: Result<Vec<String>, ApiError>)
    ensures
        match crate::scoring::scoring_checks_spec(*competition, crate::scoring::opt_str_ref(name)) {
            Some(names) => r matches Ok(v) && strs(v@) == names,
            None => r matches Err(e) && is_error(e, 404, "Scoring check not found"@),
        },
{
    match crate::scoring::select_scoring_checks(competition, name) {
        Some(v) => Ok(v),
        None => Err(api_error(404, "Scoring check not found")),
    }
}

/// Whether a user looked up in the store is an administrator; a user that
/// could not be found is not.
pub fn user_is_admin(found: Option<&User>) -> (r: bool)
    ensures
        r == (found matches Some(u) && u.is_admin),
{
    match found {
        Some(u) => u.is_admin,
        None => false,
    }
}

/// One scoring check's status as a team sees it.
#[derive(Debug)]
pub struct CheckStatus {
    pub name: String,
    pub passing: bool,
    pub failed_for: u64,
    pub message: Vec<String>,
    pub success_fraction: (u64, u64),
    pub passing_boxes: Vec<String>,
}

/// One flag check's status as a team sees it.
#[derive(Debug)]
pub struct FlagCheckStatus {
    pub name: String,
    pub passing: bool,
}

/// The status of check `name` from its current state.
pub fn check_status(name: &str, state: CheckCurrentState) -> (c: CheckStatus)
    ensures
        c.name@ == name@,
        c.passing == state.success,
        c.failed_for == state.number_of_failures,
        c.message == state.message,
        c.success_fraction == state.success_fraction,
        c.passing_boxes == state.passing_boxes,
{
    CheckStatus {
        name: name.to_owned(),
        passing: state.success,
        failed_for: state.number_of_failures,
        message: state.message,
        success_fraction: state.success_fraction,
        passing_boxes: state.passing_boxes,
    }
}

/// The status of flag check `name` from its current state.
pub fn flag_check_status(name: &str, state: &CheckCurrentState) -> (c: FlagCheckStatus)
    ensures
        c.name@ == name@,
        c.passing == state.success,
{
    FlagCheckStatus { name: name.to_owned(), passing: state.success }
}

/// The team and sender of a message added to a ticket: administrators
/// write as "admin" and need a team in their session ("No team context
/// found"), others as "team" ("Team name not found in session").
pub fn message_sender(is_admin: bool, team_name: Option<String>) -> (r: Result<(String, &'static str), ApiError>)
    ensures
        team_name matches Some(t) ==> (r matches Ok(p) && p.0@ == t@ && (is_admin ==> p.1@ == "admin"@) && (!is_admin
            ==> p.1@ == "team"@)),
        team_name is None && is_admin ==> (r matches Err(e) && is_error(e, 401, "No team context found"@)),
        team_name is None && !is_admin ==> (r matches Err(e) && is_error(e, 401, "Team name not found in session"@)),
{
    match team_name {
        Some(t) => Ok((t, if is_admin { "admin" } else { "team" })),
        None => if is_admin {
            Err(api_error(401, "No team context found"))
        } else {
            Err(api_error(401, "Team name not found in session"))
        },
    }
}

/// What a successfully added ticket message is answered.
pub fn message_added_text(is_admin: bool) -> (s: &'static str)
    ensures
        is_admin ==> s@ == "Admin message added to support ticket successfully"@,
        !is_admin ==> s@ == "Message added to support ticket successfully"@,
{
    if is_admin {
        "Admin message added to support ticket successfully"
    } else {
        "Message added to support ticket successfully"
    }
}

/// What a successful status change is answered.
pub fn status_updated_text(status: &str) -> (s: String)
    ensures
        s@ == "Support ticket status updated to: "@ + status@,
{
    crate::text::concat("Support ticket status updated to: ", status)
}

/// The team whose ticket status an administrator changes: the one in the
/// session.
pub fn status_change_team(team_name: Option<String>) -> (r: Result<String, ApiError>)
    ensures
        team_name matches Some(t) ==> (r matches Ok(n) && n@ == t@),
        team_name is None ==> (r matches Err(e) && is_error(e, 401, "Team context not found in session"@)),
{
    match team_name {
        Some(t) => Ok(t),
        None => Err(api_error(401, "Team context not found in session")),
    }
}

/// What starting or ending the competition is answered: the HTTP status
/// and the text.
pub fn lifecycle_answer(started: bool, result: Result<(), String>) -> (r: (u16, String))
    ensures
        result is Ok && started ==> r.0 == 200 && r.1@ == "Competition started"@,
        result is Ok && !started ==> r.0 == 200 && r.1@ == "Competition stopped"@,
        result matches Err(e) ==> (started ==> r.0 == 500 && r.1@ == "Failed to start competition: "@ + e@),
        result matches Err(e) ==> (!started ==> r.0 == 500 && r.1@ == "Failed to stop competition: "@ + e@),
{
    match result {
        Ok(()) => (200, if started { "Competition started".to_owned() } else { "Competition stopped".to_owned() }),
        Err(e) => (500, if started {
            crate::text::concat("Failed to start competition: ", e.as_str())
        } else {
            crate::text::concat("Failed to stop competition: ", e.as_str())
        }),
    }
}

} // verus!
