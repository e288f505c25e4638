//! Support tickets: what teams write to the organisers is cleaned of markup,
//! kept in tickets, and announced by toasts.
use vstd::prelude::*;
use crate::model::{
    SupportTicket, SupportTicketMessage, SupportTicketState, ToastNotification, ToastSeverity, UtcTime, opt_str,
};
use crate::sorting::{Ranked, sort_by_key_desc, sort_desc};
use crate::text::{
    concat_all, decimal, replace, replace_all, split_char, split_spec, str_eq, to_lowercase, trim, trim_spec,
    u64_to_decimal, unicode_lowercase,
};
use crate::validation::byte_len;

verus! {

// ---------------------------------------------------------------------------
// Cleaning text
// ---------------------------------------------------------------------------

/// What `regex::Regex::new(pattern)` followed by `replace_all(text,
/// replacement)` gives, or `None` when `pattern` is not a valid expression.
pub uninterp spec fn regex_replacement(pattern: Seq<char>, text: Seq<char>, replacement: Seq<char>) -> Option<Seq<char>>;

/// Compiles `pattern` with `regex::Regex::new` and replaces every match in
/// `text` by `replacement` with `Regex::replace_all`. The outcome is named
/// `regex_replacement`; the regular expression language is not stated here.
#[verifier::external_body]
fn regex_replace_all(pattern: &str, text: &str, replacement: &str) -> (r: Option<String>)
    ensures
        opt_str(r) == regex_replacement(pattern@, text@, replacement@),
{
    match regex::Regex::new(pattern) {
        Ok(re) => Some(re.replace_all(text, replacement).into_owned()),
        Err(_) => None,
    }
}

/// Any HTML or XML tag.
pub open spec fn tag_pattern() -> Seq<char> {
    "<[^>]*>"@
}

/// What is removed from a message, in this order: tags, script and style
/// elements, `javascript:` and `data:` URLs, event handler attributes, CSS
/// expressions and CSS `url(`.
pub open spec fn markup_patterns() -> Seq<Seq<char>> {
    seq![
        "<[^>]*>"@,
        "(?i)<script[^>]*>.*?</script>"@,
        "(?i)<style[^>]*>.*?</style>"@,
        "(?i)javascript\\s*:"@,
        "(?i)data\\s*:"@,
        "(?i)on\\w+\\s*="@,
        "(?i)expression\\s*\\("@,
        "(?i)url\\s*\\("@,
    ]
}

/// `text` with every match of each pattern removed, one pattern after the
/// other; `None` when a pattern is not a valid expression.
pub open spec fn remove_matches(patterns: Seq<Seq<char>>, text: Seq<char>) -> Option<Seq<char>>
    decreases patterns.len(),
{
    if patterns.len() == 0 {
        Some(text)
    } else {
        match regex_replacement(patterns[0], text, Seq::empty()) {
            None => None,
            Some(t) => remove_matches(patterns.drop_first(), t),
        }
    }
}

/// Markup is found without regard to letter case: after the plain tag
/// pattern, every pattern the sanitizer removes carries the `(?i)` flag,
/// with which `regex` matches letters in either case. Among them is the
/// script URL scheme: `javascript`, optional whitespace, then `:`.
pub proof fn lemma_keyword_patterns_ignore_case()
    ensures
        markup_patterns().len() == 8,
        markup_patterns()[0] == tag_pattern(),
        forall|i: int| 1 <= i < markup_patterns().len() ==> "(?i)"@.is_prefix_of(#[trigger] markup_patterns()[i]),
        markup_patterns().contains("(?i)"@ + "javascript\\s*:"@),
{
    reveal_strlit("(?i)");
    reveal_strlit("<[^>]*>");
    reveal_strlit("(?i)<script[^>]*>.*?</script>");
    reveal_strlit("(?i)<style[^>]*>.*?</style>");
    reveal_strlit("(?i)javascript\\s*:");
    reveal_strlit("(?i)data\\s*:");
    reveal_strlit("(?i)on\\w+\\s*=");
    reveal_strlit("(?i)expression\\s*\\(");
    reveal_strlit("(?i)url\\s*\\(");
    reveal_strlit("javascript\\s*:");
    let ps = markup_patterns();
    let flag = "(?i)"@;
    assert forall|i: int| 1 <= i < ps.len() implies flag.is_prefix_of(#[trigger] ps[i]) by {
        assert(ps[i].len() >= flag.len());
        assert(ps[i].subrange(0, 4) =~= flag);
    }
    assert(ps[3] =~= flag + "javascript\\s*:"@);
}

/// The HTML entities that are turned back into characters, in this order.
pub open spec fn decode_entities(t: Seq<char>) -> Seq<char> {
    let t = replace_all(t, "&lt;"@, "<"@);
    let t = replace_all(t, "&gt;"@, ">"@);
    let t = replace_all(t, "&amp;"@, "&"@);
    let t = replace_all(t, "&quot;"@, "\""@);
    let t = replace_all(t, "&#x27;"@, "'"@);
    let t = replace_all(t, "&#x2F;"@, "/"@);
    let t = replace_all(t, "&#x60;"@, "`"@);
    replace_all(t, "&#x3D;"@, "="@)
}

/// A message without markup: the patterns removed, entities decoded, tags
/// removed once more and surrounding whitespace trimmed.
pub open spec fn stripped_text(input: Seq<char>) -> Option<Seq<char>> {
    match remove_matches(markup_patterns(), input) {
        None => None,
        Some(t) => match regex_replacement(tag_pattern(), decode_entities(t), Seq::empty()) {
            None => None,
            Some(u) => Some(trim_spec(u)),
        },
    }
}

/// Largest number of bytes of a message that is kept.
pub const MESSAGE_LIMIT: usize = 10000;

/// Whether a message can be cut after `MESSAGE_LIMIT` bytes: it is no
/// longer, or a character starts there.
pub open spec fn cut_allowed(s: Seq<char>) -> bool {
    byte_len(s) <= MESSAGE_LIMIT || vstd::utf8::is_char_boundary(vstd::utf8::encode_utf8(s), MESSAGE_LIMIT as int)
}

/// A message of at most `MESSAGE_LIMIT` bytes as it is; a longer one cut
/// to its first `MESSAGE_LIMIT` bytes, followed by a note.
pub open spec fn limited_text(s: Seq<char>) -> Seq<char> {
    if byte_len(s) > MESSAGE_LIMIT {
        vstd::utf8::decode_utf8(vstd::utf8::encode_utf8(s).subrange(0, MESSAGE_LIMIT as int))
            + "... [message truncated]"@
    } else {
        s
    }
}

/// UTF-8 encoding is compatible with concatenation.
proof fn lemma_encode_concat(a: Seq<char>, b: Seq<char>)
    ensures
        vstd::utf8::encode_utf8(a + b) == vstd::utf8::encode_utf8(a) + vstd::utf8::encode_utf8(b),
    decreases a.len(),
{
    if a.len() == 0 {
        assert(a + b =~= b);
        assert(vstd::utf8::encode_utf8(a) =~= Seq::<u8>::empty());
        assert(vstd::utf8::encode_utf8(a) + vstd::utf8::encode_utf8(b) =~= vstd::utf8::encode_utf8(b));
    } else {
        assert((a + b).drop_first() =~= a.drop_first() + b);
        assert((a + b)[0] == a[0]);
        lemma_encode_concat(a.drop_first(), b);
        let e = vstd::utf8::encode_scalar(a[0] as u32);
        assert(vstd::utf8::encode_utf8(a + b) =~= e + vstd::utf8::encode_utf8(a.drop_first() + b));
        assert(vstd::utf8::encode_utf8(a) =~= e + vstd::utf8::encode_utf8(a.drop_first()));
    }
}

/// A kept message is never longer than `MESSAGE_LIMIT` bytes plus the
/// note that marks a cut.
pub proof fn lemma_kept_text_is_bounded(input: Seq<char>)
    ensures
        sanitized_text(input) matches Some(t) ==> byte_len(t) <= MESSAGE_LIMIT + byte_len("... [message truncated]"@),
{
    if let Some(s) = stripped_text(input) {
        if cut_allowed(s) && byte_len(s) > MESSAGE_LIMIT {
            let bytes = vstd::utf8::encode_utf8(s);
            let head = bytes.subrange(0, MESSAGE_LIMIT as int);
            vstd::utf8::encode_utf8_valid_utf8(s);
            vstd::utf8::valid_utf8_split(bytes, MESSAGE_LIMIT as int);
            vstd::utf8::decode_utf8_encode_utf8(head);
            lemma_encode_concat(vstd::utf8::decode_utf8(head), "... [message truncated]"@);
        }
    }
}

/// Removes the markup from `input`: `None` when one of the patterns cannot
/// be compiled.
pub fn strip_markup(input: &str) -> (r: Option<String>)
    ensures
        opt_str(r) == stripped_text(input@),
{
    let patterns: Vec<&str> = vec![
        "<[^>]*>",
        "(?i)<script[^>]*>.*?</script>",
        "(?i)<style[^>]*>.*?</style>",
        "(?i)javascript\\s*:",
        "(?i)data\\s*:",
        "(?i)on\\w+\\s*=",
        "(?i)expression\\s*\\(",
        "(?i)url\\s*\\(",
    ];
    let ghost pats = patterns@.map_values(|p: &str| p@);
    assert(pats =~= markup_patterns());
    let mut text = input.to_owned();
    let mut i: usize = 0;
    assert(pats.skip(0) =~= pats);
    while i < patterns.len()
        invariant
            i <= patterns.len(),
            pats == patterns@.map_values(|p: &str| p@),
            pats == markup_patterns(),
            remove_matches(pats, input@) == remove_matches(pats.skip(i as int), text@),
        decreases patterns.len() - i,
    {
        let next = regex_replace_all(patterns[i], text.as_str(), "");
        proof { reveal_strlit(""); }
        assert(""@ =~= Seq::<char>::empty());
        assert(pats.skip(i as int).drop_first() =~= pats.skip(i + 1));
        assert(pats.skip(i as int)[0] == patterns@[i as int]@);
        assert(remove_matches(pats.skip(i as int), text@) == match regex_replacement(patterns@[i as int]@, text@, Seq::empty()) {
            None => None,
            Some(t) => remove_matches(pats.skip(i + 1), t),
        });
        match next {
            Some(t) => {
                assert(regex_replacement(patterns@[i as int]@, text@, Seq::empty()) == Some(t@));
                text = t;
                assert(remove_matches(pats, input@) == remove_matches(pats.skip(i + 1), text@));
            },
            None => {
                assert(remove_matches(pats, input@) is None);
                return None;
            },
        }
        i = i + 1;
    }
    assert(pats.skip(i as int) =~= Seq::<Seq<char>>::empty());
    proof {
        reveal_strlit("&lt;");
        reveal_strlit("&gt;");
        reveal_strlit("&amp;");
        reveal_strlit("&quot;");
        reveal_strlit("&#x27;");
        reveal_strlit("&#x2F;");
        reveal_strlit("&#x60;");
        reveal_strlit("&#x3D;");
        reveal_strlit("");
    }
    assert(""@ =~= Seq::<char>::empty());
    let t = replace(text.as_str(), "&lt;", "<");
    let t = replace(t.as_str(), "&gt;", ">");
    let t = replace(t.as_str(), "&amp;", "&");
    let t = replace(t.as_str(), "&quot;", "\"");
    let t = replace(t.as_str(), "&#x27;", "'");
    let t = replace(t.as_str(), "&#x2F;", "/");
    let t = replace(t.as_str(), "&#x60;", "`");
    let t = replace(t.as_str(), "&#x3D;", "=");
    match regex_replace_all("<[^>]*>", t.as_str(), "") {
        Some(u) => Some(trim(u.as_str())),
        None => None,
    }
}

/// Cuts a message that is longer than `MESSAGE_LIMIT` bytes and marks the
/// cut.
pub fn limit_length(s: &str) -> (r: String)
    requires
        cut_allowed(s@),
    ensures
        r@ == limited_text(s@),
{
    if s.as_bytes().len() > MESSAGE_LIMIT {
        let (head, _tail) = s.split_at(MESSAGE_LIMIT);
        proof {
            vstd::utf8::encode_utf8_decode_utf8(head@);
            assert(head@ == vstd::utf8::decode_utf8(vstd::utf8::encode_utf8(s@).subrange(0, MESSAGE_LIMIT as int)));
        }
        let mut r = head.to_owned();
        r.append("... [message truncated]");
        r
    } else {
        s.to_owned()
    }
}

/// The text kept of a message: `None` when a pattern cannot be compiled or
/// the message cannot be cut at `MESSAGE_LIMIT` bytes because a character
/// spans that place.
pub open spec fn sanitized_text(input: Seq<char>) -> Option<Seq<char>> {
    match stripped_text(input) {
        None => None,
        Some(s) => if cut_allowed(s) {
            Some(limited_text(s))
        } else {
            None
        },
    }
}

/// Cleans what a user wrote: removes markup and scripts, decodes entities,
/// trims it and limits its length.
pub fn sanitize_text_input(input: &str) -> (r: Option<String>)
    ensures
        opt_str(r) == sanitized_text(input@),
{
    match strip_markup(input) {
        None => None,
        Some(s) => {
            let n = s.as_str().as_bytes().len();
            if n <= MESSAGE_LIMIT || s.as_str().is_char_boundary(MESSAGE_LIMIT) {
                Some(limit_length(s.as_str()))
            } else {
                None
            }
        },
    }
}

// ---------------------------------------------------------------------------
// Tickets
// ---------------------------------------------------------------------------

/// The sort key of an instant: whole seconds, then the sub-second part, so
/// that a later instant has a larger key (leap-second nanoseconds included).
pub open spec fn date_key(t: UtcTime) -> int {
    t.secs * 0x1_0000_0000 + t.nanos
}

/// `a` is strictly earlier than `b`, comparing seconds, then nanoseconds.
pub open spec fn earlier(a: UtcTime, b: UtcTime) -> bool {
    a.secs < b.secs || (a.secs == b.secs && a.nanos < b.nanos)
}

/// The key of an instant.
fn date_key_of(t: UtcTime) -> (k: i128)
    ensures
        k == date_key(t),
{
    (t.secs as i128) * 0x1_0000_0000 + (t.nanos as i128)
}

/// Ordering by `date_key` is ordering by time.
pub proof fn lemma_date_key_orders_by_time(a: UtcTime, b: UtcTime)
    ensures
        date_key(a) < date_key(b) <==> earlier(a, b),
        date_key(a) == date_key(b) <==> a == b,
{
    if a.secs < b.secs {
        assert(a.secs * 0x1_0000_0000 + 0x1_0000_0000 <= b.secs * 0x1_0000_0000) by (nonlinear_arith)
            requires a.secs < b.secs;
    } else if a.secs > b.secs {
        assert(b.secs * 0x1_0000_0000 + 0x1_0000_0000 <= a.secs * 0x1_0000_0000) by (nonlinear_arith)
            requires b.secs < a.secs;
    }
}

impl Ranked for (u64, SupportTicket) {
    open spec fn rank_key(&self) -> int {
        date_key(self.1.date)
    }

    fn key(&self) -> (k: i128) {
        date_key_of(self.1.date)
    }
}

impl Ranked for (String, u64, SupportTicket) {
    open spec fn rank_key(&self) -> int {
        date_key(self.2.date)
    }

    fn key(&self) -> (k: i128) {
        date_key_of(self.2.date)
    }
}

/// A team's tickets with their ids, newest first; tickets of the same
/// instant keep their order.
pub fn sort_team_tickets(tickets: Vec<(u64, SupportTicket)>) -> (r: Vec<(u64, SupportTicket)>)
    ensures
        r@ == sort_desc(tickets@),
{
    sort_by_key_desc(tickets)
}

/// Every team's tickets with team names and ids, newest first; tickets of
/// the same instant keep their order.
pub fn sort_all_tickets(tickets: Vec<(String, u64, SupportTicket)>) -> (r: Vec<(String, u64, SupportTicket)>)
    ensures
        r@ == sort_desc(tickets@),
{
    sort_by_key_desc(tickets)
}

/// The team named in a ticket list's key `<competition>:<team>:support_tickets`:
/// the next to last `:`-separated part, when there are at least three.
pub open spec fn ticket_key_team(key: Seq<char>) -> Option<Seq<char>> {
    let parts = split_spec(key, ':');
    if parts.len() >= 3 {
        Some(parts[parts.len() - 2])
    } else {
        None
    }
}

/// The team whose ticket list is stored under `key`.
pub fn team_from_ticket_key(key: &str) -> (r: Option<String>)
    ensures
        opt_str(r) == ticket_key_team(key@),
{
    let parts = split_char(key, ':');
    let n = parts.len();
    if n >= 3 {
        assert(parts@[n - 2]@ == split_spec(key@, ':')[n - 2]);
        Some(parts[n - 2].clone())
    } else {
        None
    }
}

/// A new open ticket dated `now`, holding the team's first message.
pub fn new_ticket(team_name: &str, subject: &str, message: String, now: UtcTime) -> (t: SupportTicket)
    ensures
        t.team_name@ == team_name@,
        t.date == now,
        t.state == SupportTicketState::Open,
        t.subject@ == subject@,
        t.messages@.len() == 1,
        t.messages@[0].sender@ == "team"@,
        t.messages@[0].message@ == message@,
        t.messages@[0].timestamp == now,
{
    SupportTicket {
        team_name: team_name.to_owned(),
        date: now,
        state: SupportTicketState::Open,
        subject: subject.to_owned(),
        messages: vec![SupportTicketMessage { sender: "team".to_owned(), message, timestamp: now }],
    }
}

/// Adds a message from `sender` ("team" or "admin") at `now` to the end of
/// the ticket's conversation.
pub fn append_message(ticket: &mut SupportTicket, sender: &str, message: String, now: UtcTime)
    ensures
        final(ticket).team_name == old(ticket).team_name,
        final(ticket).date == old(ticket).date,
        final(ticket).state == old(ticket).state,
        final(ticket).subject == old(ticket).subject,
        final(ticket).messages@.len() == old(ticket).messages@.len() + 1,
        final(ticket).messages@.drop_last() == old(ticket).messages@,
        final(ticket).messages@.last().sender@ == sender@,
        final(ticket).messages@.last().message@ == message@,
        final(ticket).messages@.last().timestamp == now,
{
    ticket.messages.push(SupportTicketMessage { sender: sender.to_owned(), message, timestamp: now });
    assert(ticket.messages@.drop_last() =~= old(ticket).messages@);
}

/// The ticket with each message's text cleaned; `None` when a message
/// cannot be cleaned.
pub fn sanitize_ticket(ticket: &SupportTicket) -> (r: Option<SupportTicket>)
    ensures
        r is None <==> exists|i: int|
            0 <= i < ticket.messages@.len() && sanitized_text(#[trigger] ticket.messages@[i].message@) is None,
        r matches Some(t) ==> {
            &&& t.team_name@ == ticket.team_name@
            &&& t.date == ticket.date
            &&& t.state == ticket.state
            &&& t.subject@ == ticket.subject@
            &&& t.messages@.len() == ticket.messages@.len()
            &&& forall|i: int| 0 <= i < t.messages@.len() ==> {
                &&& (#[trigger] t.messages@[i]).sender@ == ticket.messages@[i].sender@
                &&& Some(t.messages@[i].message@) == sanitized_text(ticket.messages@[i].message@)
                &&& t.messages@[i].timestamp == ticket.messages@[i].timestamp
            }
        },
{
    let mut messages: Vec<SupportTicketMessage> = Vec::new();
    let n = ticket.messages.len();
    for i in 0..n
        invariant
            n == ticket.messages@.len(),
            messages@.len() == i,
            forall|k: int| 0 <= k < i ==> sanitized_text(#[trigger] ticket.messages@[k].message@) is Some,
            forall|k: int| 0 <= k < i ==> {
                &&& (#[trigger] messages@[k]).sender@ == ticket.messages@[k].sender@
                &&& Some(messages@[k].message@) == sanitized_text(ticket.messages@[k].message@)
                &&& messages@[k].timestamp == ticket.messages@[k].timestamp
            },
    {
        let m = &ticket.messages[i];
        match sanitize_text_input(m.message.as_str()) {
            Some(clean) => {
                messages.push(SupportTicketMessage { sender: m.sender.clone(), message: clean, timestamp: m.timestamp });
            },
            None => {
                return None;
            },
        }
    }
    Some(SupportTicket {
        team_name: ticket.team_name.clone(),
        date: ticket.date,
        state: ticket.state,
        subject: ticket.subject.clone(),
        messages,
    })
}

/// What an update of a ticket's status asks for: the text is compared in
/// lowercase with "open" and "closed".
pub open spec fn requested_state(status: Seq<char>) -> Result<SupportTicketState, Seq<char>> {
    let s = unicode_lowercase(status);
    if s == "open"@ {
        Ok(SupportTicketState::Open)
    } else if s == "closed"@ {
        Ok(SupportTicketState::Closed)
    } else {
        Err("Invalid status: must be 'open' or 'closed'"@)
    }
}

/// Reads the status an administrator asks for.
pub fn parse_ticket_state(status: &str) -> (r: Result<SupportTicketState, String>)
    ensures
        match r {
            Ok(st) => requested_state(status@) == Ok::<SupportTicketState, Seq<char>>(st),
            Err(e) => requested_state(status@) == Err::<SupportTicketState, Seq<char>>(e@),
        },
{
    let lower = to_lowercase(status);
    if str_eq(lower.as_str(), "open") {
        Ok(SupportTicketState::Open)
    } else if str_eq(lower.as_str(), "closed") {
        Ok(SupportTicketState::Closed)
    } else {
        Err("Invalid status: must be 'open' or 'closed'".to_owned())
    }
}

/// A toast with the given texts, severity `Info` and no sound, to `team`
/// or to everyone.
fn info_toast(title: String, message: String, team: Option<String>) -> (t: ToastNotification)
    ensures
        t.title@ == title@,
        t.message@ == message@,
        t.severity == ToastSeverity::Info,
        t.user is None,
        opt_str(t.team) == opt_str(team),
        t.sound_effect is None,
{
    ToastNotification { title, message, severity: ToastSeverity::Info, user: None, team, sound_effect: None }
}

/// The toast telling the organisers that a team opened a ticket.
pub fn new_ticket_toast(team_name: &str, ticket_id: u64) -> (t: ToastNotification)
    ensures
        t.title@ == "New Support Ticket"@,
        t.message@ == "Team '"@ + team_name@ + "' created a new support ticket (#"@ + decimal(ticket_id as nat) + ")."@,
        t.severity == ToastSeverity::Info,
        t.user is None,
        t.team is None,
        t.sound_effect is None,
{
    let id = u64_to_decimal(ticket_id);
    let v = vec!["Team '", team_name, "' created a new support ticket (#", id.as_str(), ")."];
    let message = concat_all(&v);
    proof {
        reveal_with_fuel(crate::text::flatten, 6);
        assert(v@.map_values(|p: &str| p@) =~= seq!["Team '"@, team_name@, "' created a new support ticket (#"@, id@, ")."@]);
    }
    info_toast("New Support Ticket".to_owned(), message, None)
}

/// The toast for a new message in a ticket: an administrator's reply goes
/// to the team, a team's message to the organisers.
pub fn ticket_message_toast(team_name: &str, ticket_id: u64, sender: &str) -> (t: ToastNotification)
    ensures
        sender@ == "admin"@ ==> {
            &&& t.title@ == "Support Ticket Reply"@
            &&& t.message@ == "An administrator replied to your support ticket #"@ + decimal(ticket_id as nat)
            &&& opt_str(t.team) == Some(team_name@)
        },
        sender@ != "admin"@ ==> {
            &&& t.title@ == "Support Ticket Update"@
            &&& t.message@ == "Team '"@ + team_name@ + "' added a message to support ticket #"@ + decimal(ticket_id as nat)
            &&& t.team is None
        },
        t.severity == ToastSeverity::Info,
        t.user is None,
        t.sound_effect is None,
{
    let id = u64_to_decimal(ticket_id);
    if str_eq(sender, "admin") {
        let mut message = "An administrator replied to your support ticket #".to_owned();
        message.append(id.as_str());
        info_toast("Support Ticket Reply".to_owned(), message, Some(team_name.to_owned()))
    } else {
        let v = vec!["Team '", team_name, "' added a message to support ticket #", id.as_str()];
        let message = concat_all(&v);
        proof {
            reveal_with_fuel(crate::text::flatten, 5);
            assert(v@.map_values(|p: &str| p@) =~= seq!["Team '"@, team_name@, "' added a message to support ticket #"@, id@]);
        }
        info_toast("Support Ticket Update".to_owned(), message, None)
    }
}

/// `Your support ticket #<id> has been <what>`.
fn your_ticket_message(ticket_id: u64, what: &str) -> (m: String)
    ensures
        m@ == "Your support ticket #"@ + decimal(ticket_id as nat) + " has been "@ + what@,
{
    let id = u64_to_decimal(ticket_id);
    let v = vec!["Your support ticket #", id.as_str(), " has been ", what];
    let m = concat_all(&v);
    proof {
        reveal_with_fuel(crate::text::flatten, 5);
        assert(v@.map_values(|p: &str| p@) =~= seq!["Your support ticket #"@, id@, " has been "@, what@]);
    }
    m
}

/// The toast telling a team that its ticket was edited.
pub fn ticket_updated_toast(team_name: &str, ticket_id: u64) -> (t: ToastNotification)
    ensures
        t.title@ == "Support Ticket Updated"@,
        t.message@ == "Your support ticket #"@ + decimal(ticket_id as nat) + " has been "@ + "updated"@,
        t.severity == ToastSeverity::Info,
        t.user is None,
        opt_str(t.team) == Some(team_name@),
        t.sound_effect is None,
{
    info_toast("Support Ticket Updated".to_owned(), your_ticket_message(ticket_id, "updated"), Some(team_name.to_owned()))
}

/// The toast telling a team that its ticket was reopened or closed.
pub fn ticket_status_toast(team_name: &str, ticket_id: u64, state: SupportTicketState) -> (t: ToastNotification)
    ensures
        state == SupportTicketState::Open ==> t.title@ == "Support Ticket Reopened"@
            && t.message@ == "Your support ticket #"@ + decimal(ticket_id as nat) + " has been "@ + "reopened"@,
        state == SupportTicketState::Closed ==> t.title@ == "Support Ticket Closed"@
            && t.message@ == "Your support ticket #"@ + decimal(ticket_id as nat) + " has been "@ + "closed"@,
        t.severity == ToastSeverity::Info,
        t.user is None,
        opt_str(t.team) == Some(team_name@),
        t.sound_effect is None,
{
    match state {
        SupportTicketState::Open => info_toast(
            "Support Ticket Reopened".to_owned(),
            your_ticket_message(ticket_id, "reopened"),
            Some(team_name.to_owned()),
        ),
        SupportTicketState::Closed => info_toast(
            "Support Ticket Closed".to_owned(),
            your_ticket_message(ticket_id, "closed"),
            Some(team_name.to_owned()),
        ),
    }
}

/// The toast telling a team that its ticket was deleted.
pub fn ticket_deleted_toast(team_name: &str, ticket_id: u64) -> (t: ToastNotification)
    ensures
        t.title@ == "Support Ticket Closed"@,
        t.message@ == "Your support ticket #"@ + decimal(ticket_id as nat) + " has been "@ + "closed"@,
        t.severity == ToastSeverity::Info,
        t.user is None,
        opt_str(t.team) == Some(team_name@),
        t.sound_effect is None,
{
    info_toast("Support Ticket Closed".to_owned(), your_ticket_message(ticket_id, "closed"), Some(team_name.to_owned()))
}

/// The sum of the teams' ticket counts.
pub open spec fn count_sum(counts: Seq<u64>) -> int
    decreases counts.len(),
{
    if counts.len() == 0 {
        0
    } else {
        count_sum(counts.drop_last()) + counts.last()
    }
}

/// The number of tickets of all teams together.
pub fn total_ticket_count(counts: &Vec<u64>) -> (total: u64)
    requires
        count_sum(counts@) <= u64::MAX,
    ensures
        total == count_sum(counts@),
{
    let mut total: u64 = 0;
    for i in 0..counts.len()
        invariant
            count_sum(counts@) <= u64::MAX,
            total == count_sum(counts@.take(i as int)),
    {
        proof { lemma_count_sum_prefix(counts@, i as int + 1); }
        assert(counts@.take(i + 1).drop_last() =~= counts@.take(i as int));
        total = total + counts[i];
    }
    assert(counts@.take(counts@.len() as int) =~= counts@);
    total
}

proof fn lemma_count_sum_prefix(s: Seq<u64>, k: int)
    requires
        0 <= k <= s.len(),
    ensures
        count_sum(s.take(k)) <= count_sum(s),
    decreases s.len(),
{
    if k < s.len() {
        lemma_count_sum_prefix(s.drop_last(), k);
        assert(s.drop_last().take(k) =~= s.take(k));
    } else {
        assert(s.take(k) =~= s);
    }
}

} // verus!
