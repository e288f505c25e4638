//! Decisions of the scoring scheduler: when a check runs, which boxes it
//! runs against, how the boxes' outcomes are summed up, and what is stored
//! for the team afterwards.
use crate::config::{Box, Check, Team};
use crate::model::{strs, CheckCurrentState, CompetitionStatus};
use crate::text::{concat, concat3, concat_all, decimal, i64_to_decimal, signed_decimal, str_eq, u64_to_decimal};
use vstd::prelude::*;

verus! {

/// `a % b` on machine integers: the remainder takes the sign of `a`.
pub open spec fn rem_trunc(a: int, b: int) -> int {
    let m = if b < 0 { -b } else { b };
    if a >= 0 {
        a % m
    } else {
        -((-a) % m)
    }
}

/// `interval as i64`: intervals above `i64::MAX` wrap to negative numbers.
pub open spec fn interval_as_i64(interval: u64) -> int {
    if interval <= i64::MAX {
        interval as int
    } else {
        interval - 18446744073709551616
    }
}

/// Seconds until the next run of a check with the given interval, at `now`:
/// checks run when the Unix time is a multiple of the interval.
pub open spec fn wait_spec(now: i64, interval: u64) -> int {
    interval_as_i64(interval) - rem_trunc(now as int, interval_as_i64(interval))
}

/// The scheduler's arithmetic stays within `i64` (it would panic otherwise).
pub open spec fn schedule_fits(now: i64, interval: u64) -> bool {
    &&& interval_as_i64(interval) != 0
    &&& !(now == i64::MIN && interval_as_i64(interval) == -1)
    &&& i64::MIN <= wait_spec(now, interval) <= i64::MAX
    &&& i64::MIN <= now + wait_spec(now, interval) <= i64::MAX
}

fn wrap_interval(interval: u64) -> (r: i64)
    ensures
        r == interval_as_i64(interval),
{
    if interval <= 9223372036854775807u64 {
        interval as i64
    } else {
        let below: u64 = interval - 9223372036854775808u64;
        (below as i64) - 9223372036854775807i64 - 1
    }
}

/// The number of seconds to sleep before the next run and the Unix time of
/// that run.
pub fn next_check_time(now: i64, interval: u64) -> (r: (i64, i64))
    requires
        schedule_fits(now, interval),
    ensures
        r.0 == wait_spec(now, interval),
        r.1 == now + wait_spec(now, interval),
{
    let i = wrap_interval(interval);
    let m: i64 = if i > 0 {
        now % i
    } else if i == i64::MIN {
        if now == i64::MIN { 0 } else { now }
    } else {
        now % (-i)
    };
    assert(m == rem_trunc(now as int, i as int));
    let wait = i - m;
    (wait, now + wait)
}

/// The entry with the given key, if any (the first one).
pub open spec fn selector_lookup(entries: Seq<(String, String)>, key: Seq<char>) -> Option<Seq<char>>
    decreases entries.len(),
{
    if entries.len() == 0 {
        None
    } else if entries[0].0@ == key {
        Some(entries[0].1@)
    } else {
        selector_lookup(entries.drop_first(), key)
    }
}

/// No key occurs twice among the selector's entries, as in the map the
/// selector is read from.
pub open spec fn keys_distinct(entries: Seq<(String, String)>) -> bool {
    forall|i: int, j: int| 0 <= i < j < entries.len() ==> entries[i].0@ != entries[j].0@
}

/// The selector maps `key` to `value`: some entry holds that pair.
pub open spec fn selector_has(entries: Seq<(String, String)>, key: Seq<char>, value: Seq<char>) -> bool {
    exists|i: int| 0 <= i < entries.len() && entries[i].0@ == key && entries[i].1@ == value
}

/// With distinct keys, looking a key up by its first entry is looking it up
/// in the map: it finds `value` exactly when the selector maps the key to
/// `value`.
pub proof fn lemma_lookup_is_map_lookup(entries: Seq<(String, String)>, key: Seq<char>, value: Seq<char>)
    requires
        keys_distinct(entries),
    ensures
        selector_lookup(entries, key) == Some(value) <==> selector_has(entries, key, value),
    decreases entries.len(),
{
    if entries.len() > 0 {
        let rest = entries.drop_first();
        assert(keys_distinct(rest)) by {
            assert forall|i: int, j: int| 0 <= i < j < rest.len() implies rest[i].0@ != rest[j].0@ by {
                assert(rest[i] == entries[i + 1] && rest[j] == entries[j + 1]);
            }
        }
        lemma_lookup_is_map_lookup(rest, key, value);
        if selector_has(entries, key, value) {
            let i = choose|i: int| 0 <= i < entries.len() && entries[i].0@ == key && entries[i].1@ == value;
            if i > 0 {
                assert(rest[i - 1] == entries[i]);
                if entries[0].0@ == key {
                    assert(entries[0].0@ != entries[i].0@);
                }
            }
        }
        if selector_has(rest, key, value) {
            let i = choose|i: int| 0 <= i < rest.len() && rest[i].0@ == key && rest[i].1@ == value;
            assert(entries[i + 1] == rest[i]);
        }
    }
}

/// The selector of a check: `label_selector`, else `labelSelector`.
pub open spec fn check_selector(check: Check) -> Option<Seq<(String, String)>> {
    match check.label_selector {
        Some(v) => Some(v@),
        None => match check.label_selector_alt {
            Some(v) => Some(v@),
            None => None,
        },
    }
}

/// Whether a check runs against a box with the given labels: an absent or
/// empty selector selects every box, otherwise the selector's entry under
/// the empty key must equal the box's labels.
pub open spec fn box_selected(selector: Option<Seq<(String, String)>>, labels: Seq<char>) -> bool {
    match selector {
        None => true,
        Some(entries) => entries.len() == 0 || selector_lookup(entries, Seq::empty()) == Some(labels),
    }
}

fn lookup_empty_key(entries: &Vec<(String, String)>) -> (r: Option<&String>)
    ensures
        match r {
            Some(v) => selector_lookup(entries@, Seq::empty()) == Some(v@),
            None => selector_lookup(entries@, Seq::empty()) is None,
        },
{
    let n = entries.len();
    assert(entries@.subrange(0, n as int) =~= entries@);
    for i in 0..n
        invariant
            n == entries@.len(),
            selector_lookup(entries@, Seq::empty()) == selector_lookup(entries@.subrange(i as int, n as int), Seq::empty()),
    {
        assert(entries@.subrange(i as int, n as int)[0] == entries@[i as int]);
        if entries[i].0.as_str().is_empty() {
            assert(entries@[i as int].0@ =~= Seq::<char>::empty());
            return Some(&entries[i].1);
        }
        assert(entries@.subrange(i as int, n as int).drop_first() =~= entries@.subrange(i + 1, n as int));
    }
    None
}

/// Whether `check` runs against `box_config`.
pub fn should_check_box(check: &Check, box_config: &Box) -> (r: bool)
    ensures
        r == box_selected(check_selector(*check), box_config.labels@),
        match check_selector(*check) {
            Some(e) => (e.len() > 0 && keys_distinct(e)) ==> (r <==> selector_has(e, Seq::empty(), box_config.labels@)),
            None => true,
        },
{
    let selector = match &check.label_selector {
        Some(v) => Some(v),
        None => match &check.label_selector_alt {
            Some(v) => Some(v),
            None => None,
        },
    };
    match selector {
        None => true,
        Some(entries) => {
            if entries.len() == 0 {
                true
            } else {
                proof {
                    if keys_distinct(entries@) {
                        lemma_lookup_is_map_lookup(entries@, Seq::empty(), box_config.labels@);
                    }
                }
                match lookup_empty_key(entries) {
                    Some(label) => str_eq(box_config.labels.as_str(), label.as_str()),
                    None => false,
                }
            }
        },
    }
}

/// `<box>.<team>.<competition>.hack`.
pub open spec fn box_hostname_spec(box_name: Seq<char>, team: Seq<char>, competition: Seq<char>) -> Seq<char> {
    box_name + "."@ + team + "."@ + competition + ".hack"@
}

/// The DNS name of a team's box.
pub fn box_hostname(box_name: &str, team_name: &str, competition_name: &str) -> (h: String)
    ensures
        h@ == box_hostname_spec(box_name@, team_name@, competition_name@),
{
    let v = vec![box_name, ".", team_name, ".", competition_name, ".hack"];
    let h = concat_all(&v);
    assert(v@.map_values(|p: &str| p@) =~= seq![box_name@, "."@, team_name@, "."@, competition_name@, ".hack"@]);
    proof { reveal_with_fuel(crate::text::flatten, 7); }
    assert(crate::text::flatten(seq![box_name@, "."@, team_name@, "."@, competition_name@, ".hack"@]) =~= box_hostname_spec(box_name@, team_name@, competition_name@));
    h
}

/// The message reported for a box whose name does not resolve yet.
pub fn no_dns_entry_message(box_name: &str, team_name: &str, competition_name: &str) -> (m: String)
    ensures
        m@ == "Box "@ + box_hostname_spec(box_name@, team_name@, competition_name@) + " has no dns entry (yet), skipping"@,
{
    let host = box_hostname(box_name, team_name, competition_name);
    concat3("Box ", host.as_str(), " has no dns entry (yet), skipping")
}

/// The message reported for a box whose check could not be templated.
pub fn template_failure_message(error: &str) -> (m: String)
    ensures
        m@ == "Failed to apply template: "@ + error@,
{
    concat("Failed to apply template: ", error)
}

/// What one box contributes to a check round: a message, and the box's name
/// when the check passed on it.
pub fn box_check_outcome(box_name: &str, result: Result<String, String>) -> (r: (Option<String>, Option<String>))
    ensures
        match result {
            Ok(msg) => r.0 is Some && r.0->0@ == msg@ && r.1 is Some && r.1->0@ == box_name@,
            Err(e) => r.0 is Some && r.0->0@ == e@ && r.1 is None,
        },
{
    match result {
        Ok(message) => (Some(message), Some(box_name.to_owned())),
        Err(e) => (Some(e), None),
    }
}

/// The messages of the outcomes, in order.
pub open spec fn outcome_messages(outcomes: Seq<(Option<String>, Option<String>)>) -> Seq<Seq<char>>
    decreases outcomes.len(),
{
    if outcomes.len() == 0 {
        Seq::empty()
    } else {
        let rest = outcome_messages(outcomes.drop_last());
        match outcomes.last().0 {
            Some(m) => rest.push(m@),
            None => rest,
        }
    }
}

/// The passing boxes of the outcomes, in order.
pub open spec fn outcome_passing(outcomes: Seq<(Option<String>, Option<String>)>) -> Seq<Seq<char>>
    decreases outcomes.len(),
{
    if outcomes.len() == 0 {
        Seq::empty()
    } else {
        let rest = outcome_passing(outcomes.drop_last());
        match outcomes.last().1 {
            Some(b) => rest.push(b@),
            None => rest,
        }
    }
}

/// The messages and the passing boxes of a round, in the order in which the
/// boxes reported.
pub fn collect_outcomes(outcomes: Vec<(Option<String>, Option<String>)>) -> (r: (Vec<String>, Vec<String>))
    ensures
        strs(r.0@) == outcome_messages(outcomes@),
        strs(r.1@) == outcome_passing(outcomes@),
{
    let ghost all = outcomes@;
    let mut messages: Vec<String> = Vec::new();
    let mut passing: Vec<String> = Vec::new();
    let mut rest = outcomes;
    let mut done: usize = 0;
    let n = rest.len();
    while rest.len() > 0
        invariant
            n == all.len(),
            done + rest@.len() == n,
            rest@ == all.subrange(done as int, n as int),
            strs(messages@) == outcome_messages(all.take(done as int)),
            strs(passing@) == outcome_passing(all.take(done as int)),
        decreases rest@.len(),
    {
        let (m, p) = rest.remove(0);
        assert(all.take(done + 1).drop_last() =~= all.take(done as int));
        assert(all.take(done + 1).last() == (m, p));
        let ghost before_m = messages@;
        let ghost before_p = passing@;
        match m {
            Some(text) => {
                messages.push(text);
                assert(strs(messages@) =~= strs(before_m).push(messages@.last()@));
            },
            None => {},
        }
        match p {
            Some(b) => {
                passing.push(b);
                assert(strs(passing@) =~= strs(before_p).push(passing@.last()@));
            },
            None => {},
        }
        done = done + 1;
        assert(rest@ =~= all.subrange(done as int, n as int));
    }
    assert(all.take(n as int) =~= all);
    (messages, passing)
}

/// What is stored for the team after a round. A round with passing boxes
/// is a success with no failure; a round where no box passed is a failure,
/// one more than before. Either way it reports the passing boxes over the
/// boxes that sent a message.
pub fn round_state(messages: Vec<String>, passing_boxes: Vec<String>, previous_failures: u64) -> (s: CheckCurrentState)
    requires
        passing_boxes@.len() == 0 ==> previous_failures < u64::MAX,
    ensures
        s.success == (passing_boxes@.len() > 0),
        s.number_of_failures == (if passing_boxes@.len() > 0 { 0 } else { previous_failures + 1 }),
        strs(s.message@) == strs(messages@),
        s.success_fraction == (passing_boxes@.len() as u64, messages@.len() as u64),
        strs(s.passing_boxes@) == strs(passing_boxes@),
{
    let passing = passing_boxes.len() as u64;
    let total = messages.len() as u64;
    CheckCurrentState {
        success: passing > 0,
        number_of_failures: if passing > 0 { 0 } else { previous_failures + 1 },
        message: messages,
        success_fraction: (passing, total),
        passing_boxes,
    }
}

/// The next step of a team's round.
#[derive(Debug, Clone, Copy, PartialEq, Eq, Structural)]
pub enum RoundAction {
    /// Record the successful check result for the passing boxes.
    Record,
    /// Read the team's current state of the check.
    ReadPrevious,
    /// Write the round's state, counting on from this many earlier failures.
    Write(u64),
    /// The round ends without writing a state.
    Stop,
}

/// What a team's round does next, given how many boxes passed, whether the
/// successful result was recorded (once tried) and what the current state
/// read gave (once read: its failure count, or nothing when it is missing
/// or unreadable). A round with passing boxes first records the result and
/// stops if that fails; then the current state is read, and the new state is
/// written on from its failure count, or from 0 without one.
pub fn round_step(passing_count: usize, record_ok: Option<bool>, previous: Option<Option<u64>>) -> (a: RoundAction)
    ensures
        a == (if passing_count > 0 && record_ok is None {
            RoundAction::Record
        } else if passing_count > 0 && record_ok == Some(false) {
            RoundAction::Stop
        } else {
            match previous {
                None => RoundAction::ReadPrevious,
                Some(None) => RoundAction::Write(0),
                Some(Some(f)) => RoundAction::Write(f),
            }
        }),
{
    if passing_count > 0 {
        match record_ok {
            None => return RoundAction::Record,
            Some(false) => return RoundAction::Stop,
            Some(true) => {},
        }
    }
    match previous {
        None => RoundAction::ReadPrevious,
        Some(None) => RoundAction::Write(0),
        Some(Some(f)) => RoundAction::Write(f),
    }
}

/// Successful check results are only recorded while the competition is
/// active.
pub fn records_results(status: CompetitionStatus) -> (r: bool)
    ensures
        r == (status == CompetitionStatus::Active),
{
    match status {
        CompetitionStatus::Active => true,
        _ => false,
    }
}

/// Key of the score events of a team for a check:
/// `<competition>:<team id>:<check>`.
pub open spec fn score_key_spec(competition: Seq<char>, team_id: u64, check: Seq<char>) -> Seq<char> {
    competition + ":"@ + decimal(team_id as nat) + ":"@ + check
}

/// The key under which a team's successful results for a check are kept.
pub fn score_key(competition_name: &str, team_id: u64, check_name: &str) -> (k: String)
    ensures
        k@ == score_key_spec(competition_name@, team_id, check_name@),
{
    let id = u64_to_decimal(team_id);
    let v = vec![competition_name, ":", id.as_str(), ":", check_name];
    let k = concat_all(&v);
    assert(v@.map_values(|p: &str| p@) =~= seq![competition_name@, ":"@, id@, ":"@, check_name@]);
    proof { reveal_with_fuel(crate::text::flatten, 6); }
    assert(crate::text::flatten(seq![competition_name@, ":"@, id@, ":"@, check_name@]) =~= score_key_spec(competition_name@, team_id, check_name@));
    k
}

/// The members added to the score set for `occurrences` successes at
/// `timestamp`: `<timestamp>:<i>` for each i below `occurrences`.
pub open spec fn score_member_spec(timestamp: i64, i: u64) -> Seq<char> {
    signed_decimal(timestamp as int) + ":"@ + decimal(i as nat)
}

/// The score set members for `occurrences` successes at `timestamp`.
pub fn score_members(timestamp: i64, occurrences: u64) -> (m: Vec<String>)
    ensures
        m@.len() == occurrences,
        forall|i: int| 0 <= i < occurrences ==> #[trigger] m@[i]@ == score_member_spec(timestamp, i as u64),
{
    let ts = i64_to_decimal(timestamp);
    let mut m: Vec<String> = Vec::new();
    let mut i: u64 = 0;
    while i < occurrences
        invariant
            i <= occurrences,
            ts@ == signed_decimal(timestamp as int),
            m@.len() == i,
            forall|j: int| 0 <= j < i ==> #[trigger] m@[j]@ == score_member_spec(timestamp, j as u64),
        decreases occurrences - i,
    {
        let n = u64_to_decimal(i);
        m.push(concat3(ts.as_str(), ":", n.as_str()));
        i = i + 1;
    }
    m
}

/// What the scheduler does with a box's DNS answer once it was read as an
/// IP address (`parsed`, written back as text, or `None` when the answer is
/// no address): check that address, or report that the box has no DNS
/// entry yet.
pub fn box_address(parsed: Option<String>, box_name: &str, team_name: &str, competition_name: &str) -> (r: Result<
    String,
    String,
>)
    ensures
        match parsed {
            Some(ip) => r matches Ok(a) && a@ == ip@,
            None => r matches Err(m) && m@ == "Box "@ + box_hostname_spec(box_name@, team_name@, competition_name@)
                + " has no dns entry (yet), skipping"@,
        },
{
    match parsed {
        Some(ip) => Ok(ip),
        None => Err(no_dns_entry_message(box_name, team_name, competition_name)),
    }
}

/// The login used to fill a check's templates: the box's stored
/// credentials, or empty ones.
pub fn template_login(stored: Option<(String, String)>) -> (r: (String, String))
    ensures
        stored matches Some(p) ==> r.0@ == p.0@ && r.1@ == p.1@,
        stored is None ==> r.0@.len() == 0 && r.1@.len() == 0,
{
    match stored {
        Some(p) => p,
        None => (String::new(), String::new()),
    }
}

/// Checks run when the Unix time is a multiple of their interval: the next
/// run comes after `now`, falls on such a multiple, and (from the epoch on)
/// no later than one interval away.
pub proof fn lemma_next_run_aligned(now: i64, interval: u64)
    requires
        0 < interval <= i64::MAX,
        schedule_fits(now, interval),
    ensures
        (now + wait_spec(now, interval)) % (interval as int) == 0,
        now < now + wait_spec(now, interval),
        now >= 0 ==> now + wait_spec(now, interval) <= now + interval,
{
    let i = interval as int;
    let n = now as int;
    assert(interval_as_i64(interval) == i);
    if n >= 0 {
        let q = n / i;
        let r = n % i;
        assert(n == q * i + r && 0 <= r < i) by (nonlinear_arith)
            requires i > 0, q == n / i, r == n % i;
        assert(n + (i - r) == (q + 1) * i) by (nonlinear_arith)
            requires n == q * i + r;
        assert(((q + 1) * i) % i == 0) by (nonlinear_arith)
            requires i > 0;
    } else {
        let k = -n;
        let q = k / i;
        let r = k % i;
        assert(k == q * i + r && 0 <= r < i) by (nonlinear_arith)
            requires i > 0, q == k / i, r == k % i;
        assert(rem_trunc(n, i) == -r);
        assert(n + (i + r) == (1 - q) * i) by (nonlinear_arith)
            requires n == -k, k == q * i + r;
        assert(((1 - q) * i) % i == 0) by (nonlinear_arith)
            requires i > 0;
    }
}

} // verus!
