use carve::model::{SupportTicket, SupportTicketMessage, SupportTicketState, ToastSeverity, UtcTime};
use carve::support::{
    append_message, limit_length, new_ticket, new_ticket_toast, parse_ticket_state, sanitize_text_input,
    sanitize_ticket, sort_all_tickets, sort_team_tickets, strip_markup, team_from_ticket_key, ticket_deleted_toast,
    ticket_message_toast, ticket_status_toast, ticket_updated_toast, total_ticket_count,
};

fn at(secs: i64, nanos: u32) -> UtcTime {
    UtcTime { secs, nanos }
}

fn ticket(date: UtcTime, subject: &str) -> SupportTicket {
    new_ticket("red", subject, "help".to_string(), date)
}

#[test]
fn markup_and_scripts_are_removed() {
    assert_eq!(sanitize_text_input("<b>hi</b> there"), Some("hi there".to_string()));
    assert_eq!(sanitize_text_input("<script>alert(1)</script>ok"), Some("alert(1)ok".to_string()));
    assert_eq!(sanitize_text_input("click javascript:alert(1)"), Some("click alert(1)".to_string()));
    assert_eq!(sanitize_text_input("DATA :x"), Some("x".to_string()));
    assert_eq!(sanitize_text_input("onload = x"), Some("x".to_string()));
    assert_eq!(sanitize_text_input("width: expression(1) url(x)"), Some("width: 1) x)".to_string()));
    assert_eq!(sanitize_text_input("   padded \n"), Some("padded".to_string()));
}

#[test]
fn entities_are_decoded_and_tags_they_form_removed() {
    assert_eq!(sanitize_text_input("&lt;b&gt;bold&lt;/b&gt;"), Some("bold".to_string()));
    assert_eq!(sanitize_text_input("a &amp; b &quot;c&quot; &#x27;d&#x27;"), Some("a & b \"c\" 'd'".to_string()));
    assert_eq!(sanitize_text_input("x &#x3D; 1 &#x2F; 2 &#x60;"), Some("x = 1 / 2 `".to_string()));
    assert_eq!(strip_markup("<p>x</p>"), Some("x".to_string()));
}

#[test]
fn long_messages_are_cut_at_ten_thousand_bytes() {
    let long = "a".repeat(10001);
    let expected = format!("{}... [message truncated]", "a".repeat(10000));
    assert_eq!(sanitize_text_input(&long), Some(expected));
    let exact = "a".repeat(10000);
    assert_eq!(sanitize_text_input(&exact), Some(exact.clone()));
    let wide = "é".repeat(5001);
    assert_eq!(sanitize_text_input(&wide), Some(format!("{}... [message truncated]", "é".repeat(5000))));
    assert_eq!(limit_length("short"), "short");
}

#[test]
fn a_message_that_cannot_be_cut_on_a_character_is_refused() {
    let odd = format!("a{}", "é".repeat(5000));
    assert_eq!(odd.len(), 10001);
    assert!(!odd.is_char_boundary(10000));
    assert_eq!(sanitize_text_input(&odd), None);
}

#[test]
fn new_tickets_are_open_with_the_teams_first_message() {
    let t = new_ticket("red", "VM down", "it broke".to_string(), at(100, 5));
    assert_eq!(t.team_name, "red");
    assert_eq!(t.state, SupportTicketState::Open);
    assert_eq!(t.subject, "VM down");
    assert_eq!(t.date, at(100, 5));
    assert_eq!(
        t.messages,
        vec![SupportTicketMessage { sender: "team".to_string(), message: "it broke".to_string(), timestamp: at(100, 5) }]
    );
}

#[test]
fn messages_are_appended_at_the_end() {
    let mut t = ticket(at(1, 0), "s");
    append_message(&mut t, "admin", "on it".to_string(), at(2, 0));
    assert_eq!(t.messages.len(), 2);
    assert_eq!(t.messages[0].message, "help");
    assert_eq!(t.messages[1].sender, "admin");
    assert_eq!(t.messages[1].message, "on it");
    assert_eq!(t.messages[1].timestamp, at(2, 0));
}

#[test]
fn whole_tickets_are_cleaned() {
    let mut t = ticket(at(1, 0), "s");
    append_message(&mut t, "team", "<i>again</i>".to_string(), at(2, 0));
    let clean = sanitize_ticket(&t).unwrap();
    assert_eq!(clean.messages[1].message, "again");
    assert_eq!(clean.messages[0].message, "help");
    assert_eq!(clean.subject, t.subject);
    let mut bad = t.clone();
    append_message(&mut bad, "team", format!("a{}", "é".repeat(5000)), at(3, 0));
    assert!(sanitize_ticket(&bad).is_none());
}

#[test]
fn statuses_are_read_ignoring_case() {
    assert_eq!(parse_ticket_state("open"), Ok(SupportTicketState::Open));
    assert_eq!(parse_ticket_state("CLOSED"), Ok(SupportTicketState::Closed));
    assert_eq!(parse_ticket_state("Open"), Ok(SupportTicketState::Open));
    assert_eq!(parse_ticket_state("pending"), Err("Invalid status: must be 'open' or 'closed'".to_string()));
}

#[test]
fn tickets_are_listed_newest_first() {
    let v = vec![
        (1u64, ticket(at(10, 0), "a")),
        (2u64, ticket(at(30, 0), "b")),
        (3u64, ticket(at(10, 0), "c")),
        (4u64, ticket(at(10, 500), "d")),
    ];
    let ids: Vec<u64> = sort_team_tickets(v).into_iter().map(|(id, _)| id).collect();
    assert_eq!(ids, vec![2, 4, 1, 3]);
    let all = vec![
        ("red".to_string(), 1u64, ticket(at(5, 0), "a")),
        ("blue".to_string(), 1u64, ticket(at(6, 0), "b")),
    ];
    let teams: Vec<String> = sort_all_tickets(all).into_iter().map(|(t, _, _)| t).collect();
    assert_eq!(teams, vec!["blue".to_string(), "red".to_string()]);
}

#[test]
fn the_team_is_read_from_the_ticket_key() {
    assert_eq!(team_from_ticket_key("ctf:red:support_tickets"), Some("red".to_string()));
    assert_eq!(team_from_ticket_key("a:b:c:support_tickets"), Some("c".to_string()));
    assert_eq!(team_from_ticket_key("red:support_tickets"), None);
    assert_eq!(total_ticket_count(&vec![3, 0, 4]), 7);
}

#[test]
fn ticket_toasts() {
    let t = new_ticket_toast("red", 7);
    assert_eq!(t.title, "New Support Ticket");
    assert_eq!(t.message, "Team 'red' created a new support ticket (#7).");
    assert_eq!(t.team, None);
    assert_eq!(t.severity, ToastSeverity::Info);
    let t = ticket_message_toast("red", 7, "admin");
    assert_eq!(t.title, "Support Ticket Reply");
    assert_eq!(t.message, "An administrator replied to your support ticket #7");
    assert_eq!(t.team, Some("red".to_string()));
    let t = ticket_message_toast("red", 7, "team");
    assert_eq!(t.title, "Support Ticket Update");
    assert_eq!(t.message, "Team 'red' added a message to support ticket #7");
    assert_eq!(t.team, None);
    let t = ticket_updated_toast("red", 3);
    assert_eq!((t.title.as_str(), t.message.as_str()), ("Support Ticket Updated", "Your support ticket #3 has been updated"));
    let t = ticket_status_toast("red", 3, SupportTicketState::Open);
    assert_eq!((t.title.as_str(), t.message.as_str()), ("Support Ticket Reopened", "Your support ticket #3 has been reopened"));
    let t = ticket_status_toast("red", 3, SupportTicketState::Closed);
    assert_eq!((t.title.as_str(), t.message.as_str()), ("Support Ticket Closed", "Your support ticket #3 has been closed"));
    let t = ticket_deleted_toast("red", 3);
    assert_eq!((t.title.as_str(), t.message.as_str()), ("Support Ticket Closed", "Your support ticket #3 has been closed"));
    assert_eq!(t.team, Some("red".to_string()));
}
