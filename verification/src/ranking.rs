//! Ranking announcements: the stored ranking is refreshed from the
//! leaderboard, and a team that climbs within the top three is announced as
//! having passed another team.
use crate::model::{ToastNotification, ToastSeverity};
use crate::sorting::{sort_by_key_desc, sort_desc, Ranked};
use crate::text::{replace, replace_all, str_eq};
use vstd::prelude::*;

verus! {

impl Ranked for (String, i64) {
    open spec fn rank_key(&self) -> int {
        self.1 as int
    }

    fn key(&self) -> (k: i128) {
        self.1 as i128
    }
}

/// The view of a ranking: team names as characters, with their scores.
pub open spec fn rank_view(s: Seq<(String, i64)>) -> Seq<(Seq<char>, i64)> {
    s.map_values(|e: (String, i64)| (e.0@, e.1))
}

/// The ranking ordered by score, highest first; teams with equal scores keep
/// their order.
pub fn sort_rankings(ranks: Vec<(String, i64)>) -> (r: Vec<(String, i64)>)
    ensures
        r@ == sort_desc(ranks@),
{
    sort_by_key_desc(ranks)
}

/// Whether two rankings differ (team names and scores, in order).
pub fn rankings_differ(a: &Vec<(String, i64)>, b: &Vec<(String, i64)>) -> (r: bool)
    ensures
        r == (rank_view(a@) != rank_view(b@)),
{
    if a.len() != b.len() {
        assert(rank_view(a@).len() != rank_view(b@).len());
        return true;
    }
    let n = a.len();
    for i in 0..n
        invariant
            n == a@.len(),
            n == b@.len(),
            forall|j: int| 0 <= j < i ==> rank_view(a@)[j] == rank_view(b@)[j],
    {
        if a[i].1 != b[i].1 || !str_eq(a[i].0.as_str(), b[i].0.as_str()) {
            assert(rank_view(a@)[i as int] != rank_view(b@)[i as int]);
            return true;
        }
    }
    assert(rank_view(a@) =~= rank_view(b@));
    false
}

/// Last position of `team` in `prev` (a later entry of the same team
/// overrides an earlier one).
pub open spec fn last_position(prev: Seq<(Seq<char>, i64)>, team: Seq<char>) -> Option<int>
    decreases prev.len(),
{
    if prev.len() == 0 {
        None
    } else if prev.last().0 == team {
        Some(prev.len() - 1)
    } else {
        last_position(prev.drop_last(), team)
    }
}

/// First position at or after `from` of a team other than `team` whose
/// score differs from `score`.
pub open spec fn passed_position(sorted: Seq<(Seq<char>, i64)>, from: int, team: Seq<char>, score: i64) -> Option<int>
    decreases sorted.len() - from,
{
    if from < 0 || from >= sorted.len() {
        None
    } else if sorted[from].0 != team && sorted[from].1 != score {
        Some(from)
    } else {
        passed_position(sorted, from + 1, team, score)
    }
}

/// The pass announced for the team at `new_pos`, if any: it was at a lower
/// position within the top three before, and has gone past the first team
/// with a different score at or below its old position.
pub open spec fn pass_at(prev: Seq<(Seq<char>, i64)>, sorted: Seq<(Seq<char>, i64)>, new_pos: int) -> Seq<(Seq<char>, Seq<char>)> {
    let team = sorted[new_pos].0;
    let score = sorted[new_pos].1;
    match last_position(prev, team) {
        Some(old_pos) => if new_pos < old_pos && old_pos < 3 {
            match passed_position(sorted, old_pos, team, score) {
                Some(j) => seq![(team, sorted[j].0)],
                None => Seq::empty(),
            }
        } else {
            Seq::empty()
        },
        None => Seq::empty(),
    }
}

/// The passes announced for the first `k` positions of the new ranking.
pub open spec fn passes_upto(prev: Seq<(Seq<char>, i64)>, sorted: Seq<(Seq<char>, i64)>, k: int) -> Seq<(Seq<char>, Seq<char>)>
    decreases k,
{
    if k <= 0 {
        Seq::empty()
    } else {
        passes_upto(prev, sorted, k - 1) + pass_at(prev, sorted, k - 1)
    }
}

/// The passes announced when the ranking goes from `prev` to `sorted`: the
/// top three positions are examined in order.
pub open spec fn ranking_passes_spec(prev: Seq<(Seq<char>, i64)>, sorted: Seq<(Seq<char>, i64)>) -> Seq<(Seq<char>, Seq<char>)> {
    passes_upto(prev, sorted, if sorted.len() < 3 { sorted.len() as int } else { 3 })
}

/// The view of a list of passes (passing team, passed team).
pub open spec fn pass_view(s: Seq<(String, String)>) -> Seq<(Seq<char>, Seq<char>)> {
    s.map_values(|e: (String, String)| (e.0@, e.1@))
}

fn last_position_exec(prev: &Vec<(String, i64)>, team: &str) -> (r: Option<usize>)
    ensures
        r is None ==> last_position(rank_view(prev@), team@) is None,
        r matches Some(p) ==> last_position(rank_view(prev@), team@) == Some(p as int),
{
    let mut i = prev.len();
    assert(rank_view(prev@).take(i as int) =~= rank_view(prev@));
    while i > 0
        invariant
            i <= prev@.len(),
            last_position(rank_view(prev@), team@) == last_position(rank_view(prev@).take(i as int), team@),
        decreases i,
    {
        assert(rank_view(prev@).take(i as int).last() == rank_view(prev@)[i - 1]);
        if str_eq(prev[i - 1].0.as_str(), team) {
            return Some(i - 1);
        }
        assert(rank_view(prev@).take(i as int).drop_last() =~= rank_view(prev@).take(i - 1));
        i = i - 1;
    }
    assert(rank_view(prev@).take(0) =~= Seq::<(Seq<char>, i64)>::empty());
    None
}

fn passed_position_exec(sorted: &Vec<(String, i64)>, from: usize, team: &str, score: i64) -> (r: Option<usize>)
    ensures
        r matches Some(p) ==> from <= p < sorted@.len(),
        r is None ==> passed_position(rank_view(sorted@), from as int, team@, score) is None,
        r matches Some(p) ==> passed_position(rank_view(sorted@), from as int, team@, score) == Some(p as int),
{
    let mut j = from;
    while j < sorted.len()
        invariant
            from <= j,
            passed_position(rank_view(sorted@), from as int, team@, score) == passed_position(rank_view(sorted@), j as int, team@, score),
        decreases sorted@.len() - j,
    {
        if !str_eq(sorted[j].0.as_str(), team) && sorted[j].1 != score {
            return Some(j);
        }
        j = j + 1;
    }
    None
}

/// The passes to announce when the stored ranking `prev` is replaced by
/// `sorted`: for each of the top three new positions, in order, a team that
/// was lower in the top three before passes the first team, at or below its
/// old position, that is another team with a different score.
pub fn ranking_passes(prev: &Vec<(String, i64)>, sorted: &Vec<(String, i64)>) -> (r: Vec<(String, String)>)
    ensures
        pass_view(r@) == ranking_passes_spec(rank_view(prev@), rank_view(sorted@)),
{
    let top = if sorted.len() < 3 { sorted.len() } else { 3 };
    let mut out: Vec<(String, String)> = Vec::new();
    for new_pos in 0..top
        invariant
            top == (if sorted@.len() < 3 { sorted@.len() as int } else { 3 }),
            pass_view(out@) == passes_upto(rank_view(prev@), rank_view(sorted@), new_pos as int),
    {
        let team = sorted[new_pos].0.as_str();
        let score = sorted[new_pos].1;
        let ghost before = out@;
        let ghost pa = pass_at(rank_view(prev@), rank_view(sorted@), new_pos as int);
        assert(rank_view(sorted@)[new_pos as int] == (team@, score));
        assert(passes_upto(rank_view(prev@), rank_view(sorted@), new_pos + 1) == passes_upto(
            rank_view(prev@),
            rank_view(sorted@),
            new_pos as int,
        ) + pa);
        match last_position_exec(prev, team) {
            Some(old_pos) => {
                if new_pos < old_pos && old_pos < 3 {
                    match passed_position_exec(sorted, old_pos, team, score) {
                        Some(j) => {
                            out.push((team.to_owned(), sorted[j].0.clone()));
                            assert(rank_view(sorted@)[j as int].0 == sorted@[j as int].0@);
                            assert(pa =~= seq![(team@, sorted@[j as int].0@)]);
                            assert(pass_view(out@) =~= pass_view(before).push((team@, sorted@[j as int].0@)));
                        },
                        None => {
                            assert(pa =~= Seq::empty());
                        },
                    }
                } else {
                    assert(pa =~= Seq::empty());
                }
            },
            None => {
                assert(pa =~= Seq::empty());
            },
        }
        assert(pass_view(out@) =~= passes_upto(rank_view(prev@), rank_view(sorted@), new_pos + 1));
    }
    out
}

/// Templates of the pass announcement: `[A]` is the passing team, `[B]` the
/// passed one.
pub open spec fn pass_template_text(i: int) -> Seq<char> {
    if i == 0 { "😭 Cry more, Team [B]! Team [A] just stole your spotlight… and your dignity. ⚡"@ }
    else if i == 1 { "🚨 Breaking: Team [B] officially outclassed. Team [A] says hi from the top! 🖐️"@ }
    else if i == 2 { "👀 Did you blink? Team [A] just swiped the lead while Team [B] was napping! 💤"@ }
    else if i == 3 { "💥 Boom! Team [A] just turned Team [B]’s lead into a “behind”! 😂"@ }
    else if i == 4 { "🏴‍☠️ Ahoy, losers! Team [A] just hijacked [B]'s score and its pride! 🏴‍☠️"@ }
    else if i == 5 { "🐌 Slow much, Team [B]? Team [A] left you in the dust! 💨"@ }
    else if i == 6 { "🤡 Step aside, Team [B] clowns! Team [A] is running the circus now 🎪"@ }
    else if i == 7 { "⚡ Zapped! Team [B] just got outsmarted by Team [A]’s genius hacks 💻💀"@ }
    else if i == 8 { "🎯 Direct hit! Team [B] is now officially target practice for Team [A]!"@ }
    else if i == 9 { "🔥 Hot tip: Team [B] might want to consider a career in spectator sports… Team [A] takes the lead.🏟️"@ }
    else if i == 10 { "💪 Weak flex, Team [B]. Team [A] just made you look silly. 😎"@ }
    else if i == 11 { "🕹️ Team [A] is now officially in the driver’s seat! Team [B] is downgraded to the passenger princess!🏁"@ }
    else if i == 12 { "🐢 Slowpoke alert! Team [A] lapped Team [B] and is having a snack 🍿"@ }
    else if i == 13 { "🎉 Surprise! Team [A] just crashed Team [B]’s party and took the lead! 🎊"@ }
    else { "🚀 To infinity and beyond! Team [A] just launched past Team [B] like a rocket!🚀"@ }
}

/// Number of pass announcement templates.
pub const PASS_TEMPLATE_COUNT: u64 = 15;

/// The pass announcement template with the given number.
pub fn pass_template(i: u64) -> (t: &'static str)
    requires
        i < PASS_TEMPLATE_COUNT,
    ensures
        t@ == pass_template_text(i as int),
{
    match i {
        0 => "😭 Cry more, Team [B]! Team [A] just stole your spotlight… and your dignity. ⚡",
        1 => "🚨 Breaking: Team [B] officially outclassed. Team [A] says hi from the top! 🖐️",
        2 => "👀 Did you blink? Team [A] just swiped the lead while Team [B] was napping! 💤",
        3 => "💥 Boom! Team [A] just turned Team [B]’s lead into a “behind”! 😂",
        4 => "🏴‍☠️ Ahoy, losers! Team [A] just hijacked [B]'s score and its pride! 🏴‍☠️",
        5 => "🐌 Slow much, Team [B]? Team [A] left you in the dust! 💨",
        6 => "🤡 Step aside, Team [B] clowns! Team [A] is running the circus now 🎪",
        7 => "⚡ Zapped! Team [B] just got outsmarted by Team [A]’s genius hacks 💻💀",
        8 => "🎯 Direct hit! Team [B] is now officially target practice for Team [A]!",
        9 => "🔥 Hot tip: Team [B] might want to consider a career in spectator sports… Team [A] takes the lead.🏟️",
        10 => "💪 Weak flex, Team [B]. Team [A] just made you look silly. 😎",
        11 => "🕹️ Team [A] is now officially in the driver’s seat! Team [B] is downgraded to the passenger princess!🏁",
        12 => "🐢 Slowpoke alert! Team [A] lapped Team [B] and is having a snack 🍿",
        13 => "🎉 Surprise! Team [A] just crashed Team [B]’s party and took the lead! 🎊",
        _ => "🚀 To infinity and beyond! Team [A] just launched past Team [B] like a rocket!🚀",
    }
}

/// The text of pass announcement `i` for `team` passing `other`.
pub open spec fn pass_message(i: int, team: Seq<char>, other: Seq<char>) -> Seq<char> {
    replace_all(replace_all(pass_template_text(i), "[A]"@, team), "[B]"@, other)
}

/// The toast announcing that `team` passed `other`, worded with the template
/// chosen by `choice` (taken modulo the number of templates).
pub fn team_passed_toast(choice: u64, team: &str, other: &str) -> (t: ToastNotification)
    ensures
        t.title@ == "Ranking Update"@,
        t.message@ == pass_message((choice % PASS_TEMPLATE_COUNT) as int, team@, other@),
        t.severity == ToastSeverity::Info,
        t.user is None,
        t.team is None,
        t.sound_effect is Some && t.sound_effect->0@ == "ranking_update"@,
{
    let template = pass_template(choice % PASS_TEMPLATE_COUNT);
    proof {
        reveal_strlit("[A]");
        reveal_strlit("[B]");
    }
    let with_team = replace(template, "[A]", team);
    let message = replace(with_team.as_str(), "[B]", other);
    ToastNotification {
        title: "Ranking Update".to_owned(),
        message,
        severity: ToastSeverity::Info,
        user: None,
        team: None,
        sound_effect: Some("ranking_update".to_owned()),
    }
}

/// With distinct team names, a ranking that has not changed announces no
/// pass.
pub proof fn lemma_unchanged_ranking_announces_nothing(s: Seq<(Seq<char>, i64)>)
    requires
        forall|i: int, j: int| 0 <= i < j < s.len() ==> s[i].0 != s[j].0,
    ensures
        ranking_passes_spec(s, s).len() == 0,
{
    let top: int = if s.len() < 3 { s.len() as int } else { 3 };
    assert forall|k: int| 0 <= k <= top implies passes_upto(s, s, k).len() == 0 by {
        lemma_no_pass_upto(s, k);
    }
}

proof fn lemma_last_position_unique(s: Seq<(Seq<char>, i64)>, p: int)
    requires
        0 <= p < s.len(),
        forall|i: int, j: int| 0 <= i < j < s.len() ==> s[i].0 != s[j].0,
    ensures
        last_position(s, s[p].0) == Some(p),
    decreases s.len(),
{
    if p < s.len() - 1 {
        assert(s.last().0 != s[p].0);
        assert(s.drop_last()[p] == s[p]);
        lemma_last_position_unique(s.drop_last(), p);
    }
}

proof fn lemma_no_pass_upto(s: Seq<(Seq<char>, i64)>, k: int)
    requires
        k <= s.len(),
        forall|i: int, j: int| 0 <= i < j < s.len() ==> s[i].0 != s[j].0,
    ensures
        passes_upto(s, s, k).len() == 0,
    decreases k,
{
    if k > 0 {
        lemma_no_pass_upto(s, k - 1);
        lemma_last_position_unique(s, k - 1);
    }
}


/// Team names are pairwise distinct.
pub open spec fn names_distinct(s: Seq<(Seq<char>, i64)>) -> bool {
    forall|a: int, b: int| 0 <= a < b < s.len() ==> s[a].0 != s[b].0
}

proof fn lemma_last_position_props(prev: Seq<(Seq<char>, i64)>, team: Seq<char>)
    ensures
        match last_position(prev, team) {
            Some(q) => 0 <= q < prev.len() && prev[q].0 == team && forall|k: int| q < k < prev.len() ==> prev[k].0 != team,
            None => forall|k: int| 0 <= k < prev.len() ==> prev[k].0 != team,
        },
    decreases prev.len(),
{
    if prev.len() > 0 && prev.last().0 != team {
        lemma_last_position_props(prev.drop_last(), team);
        assert forall|k: int| 0 <= k < prev.len() - 1 implies prev.drop_last()[k] == prev[k] by {}
    }
}

proof fn lemma_passed_position_props(sorted: Seq<(Seq<char>, i64)>, from: int, team: Seq<char>, score: i64)
    requires
        0 <= from,
    ensures
        match passed_position(sorted, from, team, score) {
            Some(j) => {
                &&& from <= j < sorted.len()
                &&& sorted[j].0 != team
                &&& sorted[j].1 != score
                &&& forall|k: int| from <= k < j ==> (sorted[k].0 == team || sorted[k].1 == score)
            },
            None => forall|k: int| from <= k < sorted.len() ==> (sorted[k].0 == team || sorted[k].1 == score),
        },
    decreases sorted.len() - from,
{
    if from < sorted.len() && !(sorted[from].0 != team && sorted[from].1 != score) {
        lemma_passed_position_props(sorted, from + 1, team, score);
    }
}

/// What a single position contributes: at most one pass, made by the team
/// at that position.
proof fn lemma_pass_at_shape(prev: Seq<(Seq<char>, i64)>, sorted: Seq<(Seq<char>, i64)>, m: int)
    requires
        0 <= m < sorted.len(),
    ensures
        pass_at(prev, sorted, m).len() <= 1,
        pass_at(prev, sorted, m).len() == 1 ==> pass_at(prev, sorted, m)[0].0 == sorted[m].0,
{
}

proof fn lemma_passes_upto_shape(prev: Seq<(Seq<char>, i64)>, sorted: Seq<(Seq<char>, i64)>, k: int)
    requires
        0 <= k <= sorted.len(),
    ensures
        forall|i: int| 0 <= i < passes_upto(prev, sorted, k).len() ==> exists|m: int| {
            &&& 0 <= m < k
            &&& #[trigger] pass_at(prev, sorted, m).len() == 1
            &&& #[trigger] passes_upto(prev, sorted, k)[i] == pass_at(prev, sorted, m)[0]
        },
        names_distinct(sorted) ==> forall|i1: int, i2: int|
            0 <= i1 < i2 < passes_upto(prev, sorted, k).len() ==> passes_upto(prev, sorted, k)[i1].0 != passes_upto(prev, sorted, k)[i2].0,
    decreases k,
{
    if k > 0 {
        lemma_passes_upto_shape(prev, sorted, k - 1);
        lemma_pass_at_shape(prev, sorted, k - 1);
        let before = passes_upto(prev, sorted, k - 1);
        let x = pass_at(prev, sorted, k - 1);
        let all = passes_upto(prev, sorted, k);
        assert(all == before + x);
        assert forall|i: int| 0 <= i < all.len() implies exists|m: int| {
            &&& 0 <= m < k
            &&& #[trigger] pass_at(prev, sorted, m).len() == 1
            &&& #[trigger] all[i] == pass_at(prev, sorted, m)[0]
        } by {
            if i < before.len() {
                assert(all[i] == before[i]);
                let m = choose|m: int| {
                    &&& 0 <= m < k - 1
                    &&& #[trigger] pass_at(prev, sorted, m).len() == 1
                    &&& before[i] == pass_at(prev, sorted, m)[0]
                };
                assert(0 <= m < k);
            } else {
                assert(all[i] == x[0]);
                assert(pass_at(prev, sorted, k - 1).len() == 1);
            }
        }
        if names_distinct(sorted) {
            assert forall|i1: int, i2: int| 0 <= i1 < i2 < all.len() implies all[i1].0 != all[i2].0 by {
                if i2 < before.len() {
                    assert(all[i1] == before[i1] && all[i2] == before[i2]);
                } else {
                    assert(all[i1] == before[i1]);
                    assert(all[i2] == x[0]);
                    let m = choose|m: int| {
                        &&& 0 <= m < k - 1
                        &&& #[trigger] pass_at(prev, sorted, m).len() == 1
                        &&& before[i1] == pass_at(prev, sorted, m)[0]
                    };
                    lemma_pass_at_shape(prev, sorted, m);
                    assert(sorted[m].0 != sorted[k - 1].0);
                }
            }
        }
    }
}

proof fn lemma_passes_upto_contains(prev: Seq<(Seq<char>, i64)>, sorted: Seq<(Seq<char>, i64)>, m: int, k: int)
    requires
        0 <= m < k,
        pass_at(prev, sorted, m).len() == 1,
    ensures
        passes_upto(prev, sorted, k).contains(pass_at(prev, sorted, m)[0]),
    decreases k,
{
    let before = passes_upto(prev, sorted, k - 1);
    let all = passes_upto(prev, sorted, k);
    assert(all == before + pass_at(prev, sorted, k - 1));
    if k - 1 == m {
        assert(all[before.len() as int] == pass_at(prev, sorted, m)[0]);
    } else {
        lemma_passes_upto_contains(prev, sorted, m, k - 1);
        let i = choose|i: int| 0 <= i < before.len() && before[i] == pass_at(prev, sorted, m)[0];
        assert(all[i] == before[i]);
    }
}

/// A climb within the top three is announced: when the team now at
/// position `p` was at position `q` before, with `p < q < 3`, it is
/// announced as passing `sorted[j]`, the first other team at or below `q`
/// in the new ranking whose score differs from its own; and that is the
/// only pass announced for it.
pub proof fn lemma_climb_in_top_three_is_announced(
    prev: Seq<(Seq<char>, i64)>,
    sorted: Seq<(Seq<char>, i64)>,
    p: int,
    q: int,
    j: int,
)
    requires
        names_distinct(prev),
        names_distinct(sorted),
        0 <= p < q < 3,
        q < prev.len(),
        p < sorted.len(),
        prev[q].0 == sorted[p].0,
        q <= j < sorted.len(),
        sorted[j].0 != sorted[p].0,
        sorted[j].1 != sorted[p].1,
        forall|k: int| q <= k < j ==> (sorted[k].0 == sorted[p].0 || sorted[k].1 == sorted[p].1),
    ensures
        ranking_passes_spec(prev, sorted).contains((sorted[p].0, sorted[j].0)),
        forall|i: int|
            0 <= i < ranking_passes_spec(prev, sorted).len() && (#[trigger] ranking_passes_spec(prev, sorted)[i]).0 == sorted[p].0
                ==> ranking_passes_spec(prev, sorted)[i] == (sorted[p].0, sorted[j].0),
{
    let team = sorted[p].0;
    let score = sorted[p].1;
    let top: int = if sorted.len() < 3 { sorted.len() as int } else { 3 };
    lemma_last_position_props(prev, team);
    match last_position(prev, team) {
        Some(q2) => {
            if q2 != q {
                assert(prev[q2].0 == prev[q].0);
            }
        },
        None => {
            assert(prev[q].0 == team);
        },
    }
    assert(last_position(prev, team) == Some(q));
    lemma_passed_position_props(sorted, q, team, score);
    match passed_position(sorted, q, team, score) {
        Some(j2) => {
            if j2 < j {
                assert(sorted[j2].0 == team || sorted[j2].1 == score);
            } else if j < j2 {
                assert(sorted[j].0 == team || sorted[j].1 == score);
            }
        },
        None => {
            assert(sorted[j].0 == team || sorted[j].1 == score);
        },
    }
    assert(passed_position(sorted, q, team, score) == Some(j));
    assert(pass_at(prev, sorted, p) == seq![(team, sorted[j].0)]);
    assert(p < top);
    lemma_passes_upto_contains(prev, sorted, p, top);
    lemma_passes_upto_shape(prev, sorted, top);
    let res = ranking_passes_spec(prev, sorted);
    assert forall|i: int| 0 <= i < res.len() && (#[trigger] res[i]).0 == team implies res[i] == (team, sorted[j].0) by {
        let m = choose|m: int| {
            &&& 0 <= m < top
            &&& #[trigger] pass_at(prev, sorted, m).len() == 1
            &&& res[i] == pass_at(prev, sorted, m)[0]
        };
        lemma_pass_at_shape(prev, sorted, m);
        if m != p {
            assert(sorted[m].0 != sorted[p].0);
        }
    }
}

/// Every announced pass is such a climb: the passing team is now at a
/// position `p` among the top three and was at a lower position `q < 3`
/// before (its last entry there), and the passed team is the first other
/// team at or below `q` in the new ranking whose score differs from its own.
pub proof fn lemma_announced_pass_is_climb(prev: Seq<(Seq<char>, i64)>, sorted: Seq<(Seq<char>, i64)>, i: int)
    requires
        0 <= i < ranking_passes_spec(prev, sorted).len(),
    ensures
        exists|p: int, q: int, j: int| {
            &&& 0 <= p < q < 3
            &&& q < prev.len()
            &&& p < sorted.len()
            &&& q <= j < sorted.len()
            &&& prev[q].0 == sorted[p].0
            &&& forall|k: int| q < k < prev.len() ==> prev[k].0 != sorted[p].0
            &&& sorted[j].0 != sorted[p].0
            &&& sorted[j].1 != sorted[p].1
            &&& forall|k: int| q <= k < j ==> (sorted[k].0 == sorted[p].0 || sorted[k].1 == sorted[p].1)
            &&& #[trigger] ranking_passes_spec(prev, sorted)[i] == (sorted[p].0, sorted[j].0)
        },
{
    let top: int = if sorted.len() < 3 { sorted.len() as int } else { 3 };
    lemma_passes_upto_shape(prev, sorted, top);
    let res = ranking_passes_spec(prev, sorted);
    let m = choose|m: int| {
        &&& 0 <= m < top
        &&& #[trigger] pass_at(prev, sorted, m).len() == 1
        &&& res[i] == pass_at(prev, sorted, m)[0]
    };
    let team = sorted[m].0;
    let score = sorted[m].1;
    lemma_last_position_props(prev, team);
    let q = last_position(prev, team)->Some_0;
    lemma_passed_position_props(sorted, q, team, score);
    let j = passed_position(sorted, q, team, score)->Some_0;
    assert(res[i] == (sorted[m].0, sorted[j].0));
}

} // verus!
