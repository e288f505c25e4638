//! The competition description read from `competition.yaml`, and lookups of
//! teams in it.
use crate::model::IdentitySources;
use crate::text::{ascii_lower, eq_ignore_ascii_case, str_eq_ignore_ascii_case};
use vstd::prelude::*;

verus! {

/// Where the competition's Redis server is.
#[derive(Debug, Clone)]
pub struct RedisConfig {
    pub host: String,
    pub port: u16,
    pub db: u8,
}

/// A kind of virtual machine that every team receives.
#[derive(Debug, Clone)]
pub struct Box {
    pub name: String,
    pub labels: String,
    /// Number of CPU cores, when set.
    pub cores: Option<u32>,
    /// RAM in MB, when set.
    pub ram_mb: Option<u32>,
    /// Path of the original disk image.
    pub backing_image: String,
}

/// A competing team.
#[derive(Debug, Clone)]
pub struct Team {
    pub name: String,
}

/// HTTP method of an HTTP check.
#[derive(Debug, Clone, Copy, PartialEq, Eq, Structural)]
pub enum HttpMethods {
    Get,
    Post,
    Put,
    Delete,
}

/// An HTTP check: the request to send and what the answer must look like.
#[derive(Debug, Clone)]
pub struct HttpCheckSpec {
    pub url: String,
    pub code: u16,
    pub regex: String,
    pub method: HttpMethods,
    /// Request body, when set.
    pub forms: Option<String>,
}

/// A ping check: `code` 0 expects an answer, any other code expects none.
#[derive(Debug, Clone)]
pub struct IcmpCheckSpec {
    pub code: u8,
}

/// A hint that costs points.
#[derive(Debug, Clone)]
pub struct Hint {
    pub string: String,
    pub penalty: u64,
}

/// A challenge scored by submitting a flag.
#[derive(Debug, Clone)]
pub struct FlagCheck {
    /// Unique challenge name.
    pub name: String,
    pub description: String,
    /// Points awarded for solving the challenge.
    pub points: u64,
    /// Number of attempts allowed.
    pub attempts: u64,
    /// Box where the flag is located.
    pub box_name: String,
}

/// An SSH login check.
#[derive(Debug, Clone)]
pub struct SshCheckSpec {
    pub port: u16,
    pub username: String,
    pub password: Option<String>,
    pub key_path: Option<String>,
}

/// A check run as a script inside `nix-shell`.
#[derive(Debug, Clone)]
pub struct NixCheckSpec {
    pub script: String,
    /// Nix packages to provide, when set.
    pub packages: Option<Vec<String>>,
    /// Timeout in seconds.
    pub timeout: u64,
}

/// How players join teams.
#[derive(Debug, Clone, Copy, PartialEq, Eq, Structural)]
pub enum RegistrationType {
    OidcOnly,
    Join,
    TeamWithLeastMembers,
}

/// What a scoring check does.
#[derive(Debug, Clone)]
pub enum CheckSpec {
    Http(HttpCheckSpec),
    Icmp(IcmpCheckSpec),
    Ssh(SshCheckSpec),
    Nix(NixCheckSpec),
}

/// A scoring check run periodically against every team's boxes.
#[derive(Debug, Clone)]
pub struct Check {
    pub name: String,
    pub description: String,
    /// Seconds between two runs.
    pub interval: u64,
    pub points: u32,
    /// Label selector entries (key, value), when set.
    pub label_selector: Option<Vec<(String, String)>>,
    /// The same selector under its alternative name `labelSelector`.
    pub label_selector_alt: Option<Vec<(String, String)>>,
    pub spec: CheckSpec,
}

/// One competition.
#[derive(Debug, Clone)]
pub struct Competition {
    pub name: String,
    pub redis: RedisConfig,
    pub oidc_provider_name: String,
    pub cidr: Option<String>,
    pub dns_host: Option<String>,
    pub vtep_host: Option<String>,
    pub boxes: Vec<Box>,
    pub teams: Vec<Team>,
    pub checks: Vec<Check>,
    pub flag_checks: Vec<FlagCheck>,
    pub admin_group: Option<String>,
    pub description: Option<String>,
    /// Duration in seconds, when limited.
    pub duration: Option<u64>,
    pub registration_type: RegistrationType,
    pub identity_sources: Vec<IdentitySources>,
    pub create_default_admin: bool,
    pub dns_upstream_service: Option<String>,
    /// Seconds a team waits between two restores of a box.
    pub restore_cooldown: Option<u64>,
    pub allow_non_admins_to_generate_join_codes: bool,
}

/// The whole configuration file.
#[derive(Debug, Clone)]
pub struct AppConfig {
    pub competitions: Vec<Competition>,
}

/// The team at position `i` is called `name`, ignoring ASCII case.
pub open spec fn team_matches(teams: Seq<Team>, i: int, name: Seq<char>) -> bool {
    eq_ignore_ascii_case(teams[i].name@, name)
}

/// Position of the first team called `name` ignoring ASCII case.
pub open spec fn is_first_team_match(teams: Seq<Team>, i: int, name: Seq<char>) -> bool {
    &&& 0 <= i < teams.len()
    &&& team_matches(teams, i, name)
    &&& forall|j: int| 0 <= j < i ==> !team_matches(teams, j, name)
}

/// No team is called `name`, ignoring ASCII case.
pub open spec fn no_team_matches(teams: Seq<Team>, name: Seq<char>) -> bool {
    forall|j: int| 0 <= j < teams.len() ==> !team_matches(teams, j, name)
}

impl Competition {
    /// Position of the first team whose name equals `team_name` ignoring
    /// ASCII case.
    pub fn team_position(&self, team_name: &str) -> (r: Option<usize>)
        ensures
            match r {
                Some(i) => is_first_team_match(self.teams@, i as int, team_name@),
                None => no_team_matches(self.teams@, team_name@),
            },
    {
        let n = self.teams.len();
        for i in 0..n
            invariant
                n == self.teams@.len(),
                forall|j: int| 0 <= j < i ==> !team_matches(self.teams@, j, team_name@),
        {
            if str_eq_ignore_ascii_case(self.teams[i].name.as_str(), team_name) {
                return Some(i);
            }
        }
        None
    }

    /// The first team whose name equals `team_name` ignoring ASCII case.
    pub fn get_team_by_name(&self, team_name: &str) -> (r: Option<&Team>)
        ensures
            match r {
                Some(t) => exists|i: int|
                    is_first_team_match(self.teams@, i, team_name@) && *t == self.teams@[i],
                None => no_team_matches(self.teams@, team_name@),
            },
    {
        match self.team_position(team_name) {
            Some(i) => Some(&self.teams[i]),
            None => None,
        }
    }

    /// The id of the first team whose name equals `team_name` ignoring ASCII
    /// case; ids count from 1 in configuration order.
    pub fn get_team_id_from_name(&self, team_name: &str) -> (r: Option<u64>)
        ensures
            match r {
                Some(id) => is_first_team_match(self.teams@, id - 1, team_name@),
                None => no_team_matches(self.teams@, team_name@),
            },
    {
        match self.team_position(team_name) {
            Some(i) => {
                assert(i < self.teams.len());
                Some(i as u64 + 1)
            },
            None => None,
        }
    }

    /// The name of the team with the given id (counting from 1). Id 0 is not
    /// accepted.
    pub fn get_team_name_from_id(&self, team_id: u64) -> (r: Option<String>)
        requires
            team_id >= 1,
        ensures
            team_id <= self.teams@.len() ==> r is Some && r->0@ == self.teams@[team_id - 1].name@,
            team_id > self.teams@.len() ==> r is None,
    {
        if team_id <= self.teams.len() as u64 {
            Some(self.teams[(team_id - 1) as usize].name.clone())
        } else {
            None
        }
    }
}

/// The position of the first competition called exactly `name`.
pub fn find_competition(config: &AppConfig, name: &str) -> (r: Option<usize>)
    ensures
        match r {
            Some(i) => i < config.competitions@.len() && config.competitions@[i as int].name@ == name@
                && forall|j: int| 0 <= j < i ==> config.competitions@[j].name@ != name@,
            None => forall|j: int| 0 <= j < config.competitions@.len() ==> config.competitions@[j].name@ != name@,
        },
{
    let n = config.competitions.len();
    for i in 0..n
        invariant
            n == config.competitions@.len(),
            forall|j: int| 0 <= j < i ==> config.competitions@[j].name@ != name@,
    {
        if crate::text::str_eq(config.competitions[i].name.as_str(), name) {
            return Some(i);
        }
    }
    None
}

/// The position of the first scoring check called exactly `name`.
pub fn find_check(competition: &Competition, name: &str) -> (r: Option<usize>)
    ensures
        match r {
            Some(i) => i < competition.checks@.len() && competition.checks@[i as int].name@ == name@
                && forall|j: int| 0 <= j < i ==> competition.checks@[j].name@ != name@,
            None => forall|j: int| 0 <= j < competition.checks@.len() ==> competition.checks@[j].name@ != name@,
        },
{
    let n = competition.checks.len();
    for i in 0..n
        invariant
            n == competition.checks@.len(),
            forall|j: int| 0 <= j < i ==> competition.checks@[j].name@ != name@,
    {
        if crate::text::str_eq(competition.checks[i].name.as_str(), name) {
            return Some(i);
        }
    }
    None
}

} // verus!
