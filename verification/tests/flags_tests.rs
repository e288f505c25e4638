use carve::flags::{flag_redeemed_toast, flag_value, new_flag, redeem_outcome, FLAG_SECRET_LEN};
use carve::model::ToastSeverity;

#[test]
fn flags_are_the_competition_name_and_a_secret_in_braces() {
    assert_eq!(flag_value("ctf", "abcdefgh"), "ctf{abcdefgh}");
    let f = new_flag("ctf");
    assert!(f.starts_with("ctf{") && f.ends_with('}'));
    let secret = &f[4..f.len() - 1];
    assert_eq!(secret.len(), FLAG_SECRET_LEN);
    assert!(secret.chars().all(|c| c.is_ascii_lowercase()));
}

#[test]
fn a_flag_that_is_not_held_is_not_redeemed() {
    assert!(redeem_outcome("red", "ctf{nope}", false).is_none());
}

#[test]
fn a_redeemed_flag_is_scored_and_announced_to_the_team() {
    let r = redeem_outcome("red", "ctf{abcdefgh}", true).unwrap();
    assert!(r.state.success);
    assert_eq!(r.state.number_of_failures, 0);
    assert_eq!(r.state.message, vec!["Flag redeemed: ctf{abcdefgh}".to_string()]);
    assert_eq!(r.state.success_fraction, (1, 1));
    assert!(r.state.passing_boxes.is_empty());
    assert_eq!(r.toast.title, "Flag Redeemed");
    assert_eq!(r.toast.message, "Team 'red' redeemed the flag 'ctf{abcdefgh}'.");
    assert_eq!(r.toast.severity, ToastSeverity::Info);
    assert_eq!(r.toast.user, None);
    assert_eq!(r.toast.team, Some("red".to_string()));
    assert_eq!(r.toast.sound_effect, Some("flag_redeemed".to_string()));
    assert_eq!(flag_redeemed_toast("red", "x").message, "Team 'red' redeemed the flag 'x'.");
}
