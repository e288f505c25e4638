//! Scores: points per check, the leaderboard, scores at past instants, and
//! the check status shown to a team.
use crate::config::Competition;
use crate::model::{strs, CheckCurrentState};
use crate::sorting::{sort_by_key_desc, sort_desc, Ranked};
use crate::text::{concat, str_eq};
use vstd::prelude::*;

verus! {

/// A team's score for a check: successful results times the check's points.
pub fn score_for_check(successes: i64, points: i64) -> (score: i64)
    requires
        i64::MIN <= successes * points <= i64::MAX,
    ensures
        score == successes * points,
{
    successes * points
}

/// Sum of the scores that could be read; unreadable ones count for nothing.
pub open spec fn sum_readable(scores: Seq<Option<i64>>) -> int
    decreases scores.len(),
{
    if scores.len() == 0 {
        0
    } else {
        sum_readable(scores.drop_last()) + match scores.last() {
            Some(s) => s as int,
            None => 0,
        }
    }
}

/// Every running total of the readable scores fits in an `i64`.
pub open spec fn running_sums_fit(scores: Seq<Option<i64>>) -> bool {
    forall|k: int| 0 <= k <= scores.len() ==> i64::MIN <= #[trigger] sum_readable(scores.take(k)) <= i64::MAX
}

/// The total of a team's readable scores.
pub fn total_score(scores: &Vec<Option<i64>>) -> (total: i64)
    requires
        running_sums_fit(scores@),
    ensures
        total == sum_readable(scores@),
{
    let mut total: i64 = 0;
    let n = scores.len();
    assert(scores@.take(0) =~= Seq::<Option<i64>>::empty());
    for i in 0..n
        invariant
            n == scores@.len(),
            running_sums_fit(scores@),
            total == sum_readable(scores@.take(i as int)),
    {
        assert(scores@.take(i + 1).drop_last() =~= scores@.take(i as int));
        assert(i64::MIN <= sum_readable(scores@.take(i + 1)) <= i64::MAX);
        match scores[i] {
            Some(s) => {
                total = total + s;
            },
            None => {},
        }
    }
    assert(scores@.take(n as int) =~= scores@);
    total
}

/// One row of the leaderboard.
#[derive(Debug, Clone)]
pub struct LeaderboardEntry {
    pub team_id: u64,
    pub team_name: String,
    pub score: i64,
    pub rank: u64,
}

impl Ranked for LeaderboardEntry {
    open spec fn rank_key(&self) -> int {
        self.score as int
    }

    fn key(&self) -> (k: i128) {
        self.score as i128
    }
}

/// The id used to look up a team's scores: the id of the first team with
/// the same name ignoring ASCII case, or 0.
pub fn score_team_id(competition: &Competition, team_index: usize) -> (id: u64)
    requires
        team_index < competition.teams@.len(),
    ensures
        id >= 1,
        crate::config::is_first_team_match(competition.teams@, id - 1, competition.teams@[team_index as int].name@),
{
    assert(crate::config::team_matches(competition.teams@, team_index as int, competition.teams@[team_index as int].name@));
    match competition.get_team_id_from_name(competition.teams[team_index].name.as_str()) {
        Some(id) => id,
        None => 0,
    }
}

/// The leaderboard rows before ordering: team ids count from 1 in
/// configuration order, ranks are not set yet.
pub open spec fn unranked_rows(names: Seq<String>, totals: Seq<i64>, rows: Seq<LeaderboardEntry>) -> bool {
    &&& rows.len() == names.len()
    &&& forall|i: int| 0 <= i < rows.len() ==> {
        &&& (#[trigger] rows[i]).team_id == i + 1
        &&& rows[i].team_name@ == names[i]@
        &&& rows[i].score == totals[i]
        &&& rows[i].rank == 0
    }
}

/// The leaderboard: rows ordered by score, highest first (teams with equal
/// scores keep their configuration order), ranked 1, 2, ... in that order.
pub fn build_leaderboard(names: &Vec<String>, totals: &Vec<i64>) -> (board: Vec<LeaderboardEntry>)
    requires
        names@.len() == totals@.len(),
        names@.len() < u64::MAX,
    ensures
        exists|rows: Seq<LeaderboardEntry>| {
            &&& unranked_rows(names@, totals@, rows)
            &&& board@.len() == rows.len()
            &&& forall|i: int| 0 <= i < board@.len() ==> {
                let s = #[trigger] sort_desc(rows)[i];
                &&& board@[i].team_id == s.team_id
                &&& board@[i].team_name@ == s.team_name@
                &&& board@[i].score == s.score
                &&& board@[i].rank == i + 1
            }
        },
{
    let mut rows: Vec<LeaderboardEntry> = Vec::new();
    let n = names.len();
    for i in 0..n
        invariant
            n == names@.len(),
            n == totals@.len(),
            n < u64::MAX,
            rows@.len() == i,
            forall|j: int| 0 <= j < i ==> {
                &&& (#[trigger] rows@[j]).team_id == j + 1
                &&& rows@[j].team_name@ == names@[j]@
                &&& rows@[j].score == totals@[j]
                &&& rows@[j].rank == 0
            },
    {
        rows.push(LeaderboardEntry { team_id: i as u64 + 1, team_name: names[i].clone(), score: totals[i], rank: 0 });
    }
    let ghost unranked = rows@;
    proof { crate::sorting::lemma_sort_desc_sorted_permutation(unranked); }
    let sorted = sort_by_key_desc(rows);
    let mut board: Vec<LeaderboardEntry> = Vec::new();
    let m = sorted.len();
    for i in 0..m
        invariant
            m == sorted@.len(),
            sorted@ == sort_desc(unranked),
            m < u64::MAX,
            board@.len() == i,
            forall|j: int| 0 <= j < i ==> {
                let s = #[trigger] sort_desc(unranked)[j];
                &&& board@[j].team_id == s.team_id
                &&& board@[j].team_name@ == s.team_name@
                &&& board@[j].score == s.score
                &&& board@[j].rank == j + 1
            },
    {
        let e = &sorted[i];
        board.push(LeaderboardEntry { team_id: e.team_id, team_name: e.team_name.clone(), score: e.score, rank: i as u64 + 1 });
    }
    assert(unranked_rows(names@, totals@, unranked));
    assert(board@.len() == unranked.len());
    board
}

/// The scores fed to the ranking announcements: (team name, total) in
/// configuration order.
pub fn ranking_input(names: &Vec<String>, totals: &Vec<i64>) -> (r: Vec<(String, i64)>)
    requires
        names@.len() == totals@.len(),
    ensures
        r@.len() == names@.len(),
        forall|i: int| 0 <= i < r@.len() ==> (#[trigger] r@[i]).0@ == names@[i]@ && r@[i].1 == totals@[i],
{
    let mut r: Vec<(String, i64)> = Vec::new();
    let n = names.len();
    for i in 0..n
        invariant
            n == names@.len(),
            n == totals@.len(),
            r@.len() == i,
            forall|j: int| 0 <= j < i ==> (#[trigger] r@[j]).0@ == names@[j]@ && r@[j].1 == totals@[j],
    {
        r.push((names[i].clone(), totals[i]));
    }
    r
}

/// Whether a team id names a configured team: ids count from 1.
pub fn team_id_in_range(team_id: u64, team_count: usize) -> (r: bool)
    ensures
        r == !(team_id == 0 || (team_id as usize) > team_count),
{
    !(team_id == 0 || (team_id as usize) > team_count)
}

/// Names of the checks.
pub open spec fn check_names(s: Seq<crate::config::Check>) -> Seq<Seq<char>> {
    s.map_values(|c: crate::config::Check| c.name@)
}

/// Names of the flag checks.
pub open spec fn flag_check_names(s: Seq<crate::config::FlagCheck>) -> Seq<Seq<char>> {
    s.map_values(|f: crate::config::FlagCheck| f.name@)
}

/// The checks whose scores are summed: the one named, looked up among the
/// checks then the flag checks, or every check then every flag check when
/// none is named. `None` when the named check does not exist.
pub open spec fn scoring_checks_spec(competition: Competition, name: Option<Seq<char>>) -> Option<Seq<Seq<char>>> {
    match name {
        Some(n) => if exists|i: int| 0 <= i < competition.checks@.len() && #[trigger] competition.checks@[i].name@ == n {
            Some(seq![n])
        } else if exists|i: int| 0 <= i < competition.flag_checks@.len() && #[trigger] competition.flag_checks@[i].name@ == n {
            Some(seq![n])
        } else {
            None
        },
        None => Some(check_names(competition.checks@) + flag_check_names(competition.flag_checks@)),
    }
}

/// The view of an optional string slice.
pub open spec fn opt_str_ref(o: Option<&str>) -> Option<Seq<char>> {
    match o {
        Some(s) => Some(s@),
        None => None,
    }
}

/// Selects the checks whose scores are summed.
pub fn select_scoring_checks(competition: &Competition, name: Option<&str>) -> (r: Option<Vec<String>>)
    ensures
        r is Some ==> scoring_checks_spec(*competition, opt_str_ref(name)) == Some(strs(r->0@)),
        r is None ==> scoring_checks_spec(*competition, opt_str_ref(name)) is None,
{
    match name {
        Some(n) => {
            let c = competition.checks.len();
            for i in 0..c
                invariant
                    name == Some(n),
                    c == competition.checks@.len(),
                    forall|j: int| 0 <= j < i ==> competition.checks@[j].name@ != n@,
            {
                if str_eq(competition.checks[i].name.as_str(), n) {
                    assert(competition.checks@[i as int].name@ == n@);
                    let v = vec![competition.checks[i].name.clone()];
                    assert(strs(v@) =~= seq![n@]);
                    assert(exists|j: int| 0 <= j < competition.checks@.len() && #[trigger] competition.checks@[j].name@ == n@);
                    assert(scoring_checks_spec(*competition, Some(n@)) == Some(seq![n@]));
                    return Some(v);
                }
            }
            let f = competition.flag_checks.len();
            for i in 0..f
                invariant
                    name == Some(n),
                    f == competition.flag_checks@.len(),
                    c == competition.checks@.len(),
                    forall|j: int| 0 <= j < c ==> competition.checks@[j].name@ != n@,
                    forall|j: int| 0 <= j < i ==> competition.flag_checks@[j].name@ != n@,
            {
                if str_eq(competition.flag_checks[i].name.as_str(), n) {
                    assert(competition.flag_checks@[i as int].name@ == n@);
                    assert(!(exists|j: int| 0 <= j < competition.checks@.len() && #[trigger] competition.checks@[j].name@ == n@));
                    let v = vec![competition.flag_checks[i].name.clone()];
                    assert(strs(v@) =~= seq![n@]);
                    assert(exists|j: int| 0 <= j < competition.flag_checks@.len() && #[trigger] competition.flag_checks@[j].name@ == n@);
                    assert(scoring_checks_spec(*competition, Some(n@)) == Some(seq![n@]));
                    return Some(v);
                }
            }
            None
        },
        None => {
            let mut all: Vec<String> = Vec::new();
            let c = competition.checks.len();
            for i in 0..c
                invariant
                    c == competition.checks@.len(),
                    strs(all@) == check_names(competition.checks@.take(i as int)),
            {
                let ghost before = all@;
                all.push(competition.checks[i].name.clone());
                assert(competition.checks@.take(i + 1) =~= competition.checks@.take(i as int).push(competition.checks@[i as int]));
                assert(check_names(competition.checks@.take(i + 1)) =~= check_names(competition.checks@.take(i as int)).push(competition.checks@[i as int].name@));
                assert(strs(all@) =~= strs(before).push(competition.checks@[i as int].name@));
            }
            assert(competition.checks@.take(c as int) =~= competition.checks@);
            let ghost checks_part = strs(all@);
            let f = competition.flag_checks.len();
            for i in 0..f
                invariant
                    f == competition.flag_checks@.len(),
                    strs(all@) == checks_part + flag_check_names(competition.flag_checks@.take(i as int)),
            {
                let ghost before = all@;
                all.push(competition.flag_checks[i].name.clone());
                assert(competition.flag_checks@.take(i + 1) =~= competition.flag_checks@.take(i as int).push(
                    competition.flag_checks@[i as int],
                ));
                assert(flag_check_names(competition.flag_checks@.take(i + 1)) =~= flag_check_names(competition.flag_checks@.take(i as int)).push(competition.flag_checks@[i as int].name@));
                assert(strs(all@) =~= strs(before).push(competition.flag_checks@[i as int].name@));
            }
            assert(competition.flag_checks@.take(f as int) =~= competition.flag_checks@);
            Some(all)
        },
    }
}

/// Adds one check's counts, time by time, to the running totals.
pub fn add_counts(totals: &mut Vec<i64>, counts: &Vec<i64>)
    requires
        counts@.len() <= old(totals)@.len(),
        forall|i: int| 0 <= i < counts@.len() ==> i64::MIN <= old(totals)@[i] + #[trigger] counts@[i] <= i64::MAX,
    ensures
        final(totals)@.len() == old(totals)@.len(),
        forall|i: int| 0 <= i < counts@.len() ==> final(totals)@[i] == old(totals)@[i] + counts@[i],
        forall|i: int| counts@.len() <= i < old(totals)@.len() ==> final(totals)@[i] == old(totals)@[i],
{
    let n = counts.len();
    for i in 0..n
        invariant
            n == counts@.len(),
            totals@.len() == old(totals)@.len(),
            n <= totals@.len(),
            forall|j: int| 0 <= j < n ==> i64::MIN <= old(totals)@[j] + #[trigger] counts@[j] <= i64::MAX,
            forall|j: int| 0 <= j < i ==> totals@[j] == old(totals)@[j] + counts@[j],
            forall|j: int| i <= j < totals@.len() ==> totals@[j] == old(totals)@[j],
    {
        let v = totals[i] + counts[i];
        totals.set(i, v);
    }
}

/// The state shown for a check that never ran for the team.
pub fn unsolved_check_state() -> (s: CheckCurrentState)
    ensures
        !s.success,
        s.number_of_failures == 0,
        strs(s.message@) == seq!["Unsolved"@],
        s.success_fraction == (0u64, 0u64),
        s.passing_boxes@.len() == 0,
{
    let m = vec!["Unsolved".to_owned()];
    assert(strs(m@) =~= seq!["Unsolved"@]);
    CheckCurrentState {
        success: false,
        number_of_failures: 0,
        message: m,
        success_fraction: (0, 0),
        passing_boxes: Vec::new(),
    }
}

/// The text of the error for a stored check state that cannot be read.
pub fn invalid_state_message(stored: &str, error: &str) -> (m: String)
    ensures
        m@ == "Invalid state format (YAML): "@ + stored@ + ": "@ + error@,
{
    let v = vec!["Invalid state format (YAML): ", stored, ": ", error];
    let m = crate::text::concat_all(&v);
    proof {
        reveal_with_fuel(crate::text::flatten, 5);
        assert(v@.map_values(|p: &str| p@) =~= seq!["Invalid state format (YAML): "@, stored@, ": "@, error@]);
    }
    m
}

/// The state recorded for a flag check when its flag is redeemed.
pub fn flag_redeemed_state(flag: &str) -> (s: CheckCurrentState)
    ensures
        s.success,
        s.number_of_failures == 0,
        strs(s.message@) == seq!["Flag redeemed: "@ + flag@],
        s.success_fraction == (1u64, 1u64),
        s.passing_boxes@.len() == 0,
{
    let m = vec![concat("Flag redeemed: ", flag)];
    assert(strs(m@) =~= seq!["Flag redeemed: "@ + flag@]);
    CheckCurrentState {
        success: true,
        number_of_failures: 0,
        message: m,
        success_fraction: (1, 1),
        passing_boxes: Vec::new(),
    }
}

} // verus!
