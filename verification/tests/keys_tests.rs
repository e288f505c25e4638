use carve::keys::{
    box_key, competition_key, flag_set_key, global_toast_channel, redis_url, support_tickets_pattern, team_key,
    team_members_pattern, team_toast_channel, toast_channel, toast_subscriptions, user_toast_channel, vxlan_fdb_key,
};
use carve::model::{ToastNotification, ToastSeverity};

fn toast(user: Option<&str>, team: Option<&str>) -> ToastNotification {
    ToastNotification {
        title: "t".to_string(),
        message: "m".to_string(),
        severity: ToastSeverity::Info,
        user: user.map(|u| u.to_string()),
        team: team.map(|t| t.to_string()),
        sound_effect: None,
    }
}

#[test]
fn keys_are_colon_separated() {
    assert_eq!(competition_key("ctf", "state"), "ctf:state");
    assert_eq!(team_key("ctf", "red", "users"), "ctf:red:users");
    assert_eq!(box_key("ctf", "red", "web", "credentials"), "ctf:red:web:credentials");
    assert_eq!(flag_set_key("ctf", "red", "flag1"), "ctf:red:flag1:flags");
    assert_eq!(vxlan_fdb_key("ctf", "red"), "ctf:vxlan_fdb:red");
    assert_eq!(team_members_pattern("ctf"), "ctf:*:users");
    assert_eq!(support_tickets_pattern("ctf"), "ctf:*:support_tickets");
}

#[test]
fn redis_url_names_host_port_and_database() {
    assert_eq!(redis_url("redis.local", 6379, 0), "redis://redis.local:6379/0");
    assert_eq!(redis_url("h", 1, 255), "redis://h:1/255");
}

#[test]
fn toasts_go_to_user_then_team_then_everyone() {
    assert_eq!(toast_channel(&toast(Some("alice"), Some("red"))), "carve:toasts:user:alice");
    assert_eq!(toast_channel(&toast(None, Some("red"))), "carve:toasts:team:red");
    assert_eq!(toast_channel(&toast(None, None)), "carve:toasts");
    assert_eq!(user_toast_channel("bob"), "carve:toasts:user:bob");
    assert_eq!(team_toast_channel("blue"), "carve:toasts:team:blue");
    assert_eq!(global_toast_channel(), "carve:toasts");
}

#[test]
fn listeners_subscribe_to_everyone_then_user_then_team() {
    assert_eq!(toast_subscriptions(None, None), vec!["carve:toasts".to_string()]);
    assert_eq!(
        toast_subscriptions(Some("alice"), Some("red")),
        vec![
            "carve:toasts".to_string(),
            "carve:toasts:user:alice".to_string(),
            "carve:toasts:team:red".to_string()
        ]
    );
    assert_eq!(
        toast_subscriptions(None, Some("red")),
        vec!["carve:toasts".to_string(), "carve:toasts:team:red".to_string()]
    );
}
