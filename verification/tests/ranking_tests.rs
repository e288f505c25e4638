use carve::ranking::{rankings_differ, ranking_passes, sort_rankings, team_passed_toast};
use carve::model::ToastSeverity;

fn ranks(v: &[(&str, i64)]) -> Vec<(String, i64)> {
    v.iter().map(|(n, s)| (n.to_string(), *s)).collect()
}

#[test]
fn rankings_are_sorted_by_score_keeping_ties_in_order() {
    let sorted = sort_rankings(ranks(&[("a", 1), ("b", 5), ("c", 1), ("d", 9)]));
    assert_eq!(sorted, ranks(&[("d", 9), ("b", 5), ("a", 1), ("c", 1)]));
    assert_eq!(sort_rankings(Vec::new()), Vec::<(String, i64)>::new());
}

#[test]
fn sorting_is_a_permutation_in_descending_order() {
    let input = ranks(&[("x", -3), ("y", 7), ("z", 7), ("w", 0), ("v", -3)]);
    let sorted = sort_rankings(input.clone());
    assert_eq!(sorted.len(), input.len());
    for w in sorted.windows(2) {
        assert!(w[0].1 >= w[1].1);
    }
    let mut a = sorted.clone();
    let mut b = input.clone();
    a.sort();
    b.sort();
    assert_eq!(a, b);
}

#[test]
fn rankings_differ_compares_names_and_scores() {
    assert!(!rankings_differ(&ranks(&[("a", 1)]), &ranks(&[("a", 1)])));
    assert!(rankings_differ(&ranks(&[("a", 1)]), &ranks(&[("a", 2)])));
    assert!(rankings_differ(&ranks(&[("a", 1)]), &ranks(&[("b", 1)])));
    assert!(rankings_differ(&ranks(&[("a", 1)]), &ranks(&[])));
}

#[test]
fn a_team_moving_up_in_the_top_three_passes_the_next_team_with_another_score() {
    let prev = ranks(&[("A", 10), ("B", 8), ("C", 5)]);
    let now = ranks(&[("B", 12), ("A", 10), ("C", 5)]);
    assert_eq!(ranking_passes(&prev, &now), vec![("B".to_string(), "A".to_string())]);
}

#[test]
fn a_tie_is_no_pass() {
    let prev = ranks(&[("A", 10), ("B", 8)]);
    let now = ranks(&[("B", 10), ("A", 10)]);
    assert_eq!(ranking_passes(&prev, &now), Vec::<(String, String)>::new());
}

#[test]
fn an_unchanged_ranking_announces_nothing() {
    let r = ranks(&[("A", 10), ("B", 8), ("C", 5), ("D", 1)]);
    assert_eq!(ranking_passes(&r, &r), Vec::<(String, String)>::new());
}

#[test]
fn moves_from_outside_the_top_three_are_not_announced() {
    let prev = ranks(&[("A", 10), ("B", 8), ("C", 5), ("D", 1)]);
    let now = ranks(&[("D", 20), ("A", 10), ("B", 8), ("C", 5)]);
    assert_eq!(ranking_passes(&prev, &now), Vec::<(String, String)>::new());
}

#[test]
fn pass_toast_fills_in_both_teams() {
    let t = team_passed_toast(5, "Red", "Blue");
    assert_eq!(t.title, "Ranking Update");
    assert_eq!(t.message, "🐌 Slow much, Team Blue? Team Red left you in the dust! 💨");
    assert_eq!(t.severity, ToastSeverity::Info);
    assert_eq!(t.sound_effect, Some("ranking_update".to_string()));
    assert_eq!(team_passed_toast(20, "Red", "Blue").message, team_passed_toast(5, "Red", "Blue").message);
    assert_eq!(
        team_passed_toast(4, "Red", "Blue").message,
        "🏴‍☠️ Ahoy, losers! Team Red just hijacked Blue's score and its pride! 🏴‍☠️"
    );
}
