//! Validation of what users type in: usernames, e-mail addresses, passwords
//! and IPv4 addresses reported by DNS.
use crate::checks::{regex_is_match, regex_match};
use crate::model::User;
use crate::text::{char_is_alphanumeric, char_is_numeric, chars_of, is_unicode_alphanumeric, is_unicode_numeric, split_char, split_spec};
use vstd::prelude::*;

verus! {

/// Length in bytes of the UTF-8 encoding of `s` (what `str::len` returns).
pub open spec fn byte_len(s: Seq<char>) -> nat {
    vstd::utf8::encode_utf8(s).len()
}

/// The pattern an e-mail address must match.
pub open spec fn email_pattern() -> Seq<char> {
    "^[a-zA-Z0-9._%+-]+@[a-zA-Z0-9.-]+\\.[a-zA-Z]{2,}$"@
}

/// A character allowed in usernames.
pub open spec fn username_char(c: char) -> bool {
    is_unicode_alphanumeric(c) || c == '_' || c == '-'
}

/// The verdict on a user's username and e-mail address; the rules are
/// checked in this order.
pub open spec fn user_fields_verdict(username: Seq<char>, email: Seq<char>) -> Result<(), Seq<char>> {
    if byte_len(username) < 3 || byte_len(username) > 32 {
        Err("Username must be between 3 and 32 characters long"@)
    } else if !(forall|i: int| 0 <= i < username.len() ==> username_char(#[trigger] username[i])) {
        Err("Username may only contain _, -, and alphanumeric characters"@)
    } else if is_unicode_numeric(username[0]) {
        Err("Username may not start with a number"@)
    } else {
        match regex_match(email_pattern(), email) {
            None => Err("Invalid email regex"@),
            Some(false) => Err("Email must be a valid email address"@),
            Some(true) => Ok(()),
        }
    }
}

/// The view of a validation result.
pub open spec fn unit_result_view(r: Result<(), String>) -> Result<(), Seq<char>> {
    match r {
        Ok(()) => Ok(()),
        Err(e) => Err(e@),
    }
}

/// Checks a user's username and e-mail address: a username of 3 to 32
/// bytes of letters, digits, `_` and `-`, not starting with a digit, and an
/// e-mail address of the form `name@domain.tld`.
pub fn validate_user_fields(user: &User) -> (r: Result<(), String>)
    ensures
        unit_result_view(r) == user_fields_verdict(user.username@, user.email@),
{
    let len = user.username.as_str().as_bytes().len();
    if len < 3 || len > 32 {
        return Err("Username must be between 3 and 32 characters long".to_owned());
    }
    let chars = chars_of(user.username.as_str());
    let n = chars.len();
    for i in 0..n
        invariant
            n == user.username@.len(),
            chars@ == user.username@,
            3 <= byte_len(user.username@) <= 32,
            forall|j: int| 0 <= j < i ==> username_char(#[trigger] user.username@[j]),
    {
        let c = chars[i];
        if !(char_is_alphanumeric(c) || c == '_' || c == '-') {
            assert(!username_char(user.username@[i as int]));
            assert(!(forall|k: int| 0 <= k < user.username@.len() ==> username_char(#[trigger] user.username@[k])));
            return Err("Username may only contain _, -, and alphanumeric characters".to_owned());
        }
    }
    assert(n > 0) by {
        if n == 0 {
            assert(user.username@ =~= Seq::<char>::empty());
        }
    }
    if char_is_numeric(chars[0]) {
        return Err("Username may not start with a number".to_owned());
    }
    proof { reveal_strlit("^[a-zA-Z0-9._%+-]+@[a-zA-Z0-9.-]+\\.[a-zA-Z]{2,}$"); }
    match regex_is_match("^[a-zA-Z0-9._%+-]+@[a-zA-Z0-9.-]+\\.[a-zA-Z]{2,}$", user.email.as_str()) {
        None => Err("Invalid email regex".to_owned()),
        Some(false) => Err("Email must be a valid email address".to_owned()),
        Some(true) => Ok(()),
    }
}

/// Checks a password: at least 8 bytes long.
pub fn validate_password(password: &str) -> (r: Result<(), String>)
    ensures
        byte_len(password@) < 8 ==> unit_result_view(r) == Err::<(), Seq<char>>(
            "Password must be at least 8 characters long"@,
        ),
        byte_len(password@) >= 8 ==> r is Ok,
{
    if password.as_bytes().len() < 8 {
        return Err("Password must be at least 8 characters long".to_owned());
    }
    Ok(())
}

/// An ASCII decimal digit.
pub open spec fn is_digit(c: char) -> bool {
    '0' <= c <= '9'
}

/// The value of a sequence of decimal digits.
pub open spec fn digits_value(s: Seq<char>) -> nat
    decreases s.len(),
{
    if s.len() == 0 {
        0
    } else {
        digits_value(s.drop_last()) * 10 + (s.last() as nat - '0' as nat) as nat
    }
}

/// All characters are decimal digits.
pub open spec fn all_digits(s: Seq<char>) -> bool {
    forall|i: int| 0 <= i < s.len() ==> is_digit(#[trigger] s[i])
}

/// The digits of an unsigned number's text: an optional leading `+` is
/// dropped.
pub open spec fn unsigned_digits(s: Seq<char>) -> Seq<char> {
    if s.len() > 0 && s[0] == '+' {
        s.drop_first()
    } else {
        s
    }
}

/// Whether the digits value is at most `limit`, scanning without overflow.
pub fn digits_within(d: &Vec<char>, start: usize, limit: u32) -> (r: bool)
    requires
        start <= d@.len(),
        limit < 1000,
    ensures
        r == (all_digits(d@.subrange(start as int, d@.len() as int)) && digits_value(d@.subrange(start as int, d@.len() as int)) <= limit),
{
    let n = d.len();
    let mut value: u32 = 0;
    let mut i = start;
    while i < n
        invariant
            start <= i <= n,
            n == d@.len(),
            limit < 1000,
            all_digits(d@.subrange(start as int, i as int)),
            value <= limit + 1,
            value == (if digits_value(d@.subrange(start as int, i as int)) <= limit {
                digits_value(d@.subrange(start as int, i as int))
            } else {
                (limit + 1) as nat
            }),
        decreases n - i,
    {
        let c = d[i];
        let ghost prefix = d@.subrange(start as int, i as int);
        let ghost next = d@.subrange(start as int, i + 1);
        assert(next.drop_last() =~= prefix);
        assert(next.last() == c);
        if !('0' <= c && c <= '9') {
            assert(!all_digits(d@.subrange(start as int, n as int))) by {
                assert(d@.subrange(start as int, n as int)[i - start] == c);
            }
            return false;
        }
        let digit = (c as u32) - ('0' as u32);
        if value > limit {
            assert(digits_value(prefix) > limit);
            assert(digits_value(next) >= digits_value(prefix) * 10);
            value = limit + 1;
        } else {
            let candidate = value * 10 + digit;
            if candidate > limit {
                value = limit + 1;
            } else {
                value = candidate;
            }
        }
        assert(all_digits(next)) by {
            assert forall|k: int| 0 <= k < next.len() implies is_digit(#[trigger] next[k]) by {
                if k < prefix.len() {
                    assert(next[k] == prefix[k]);
                }
            }
        }
        i = i + 1;
    }
    value <= limit
}

/// Whether one piece of an IPv4 address is acceptable: one to three ASCII
/// decimal digits with a value up to 255, and no leading zero unless the
/// piece is "0".
pub open spec fn ipv4_part_ok(part: Seq<char>) -> bool {
    &&& 1 <= part.len() <= 3
    &&& all_digits(part)
    &&& digits_value(part) <= 255
    &&& (part.len() == 1 || part[0] != '0')
}

/// An address of four dot-separated bytes without leading zeros.
pub open spec fn ipv4_ok(ip: Seq<char>) -> bool {
    let parts = split_spec(ip, '.');
    &&& parts.len() == 4
    &&& forall|i: int| 0 <= i < 4 ==> ipv4_part_ok(#[trigger] parts[i])
}

/// Whether `ip` is an IPv4 address written as four dot-separated numbers
/// of decimal digits up to 255, without leading zeros.
pub fn is_valid_ipv4(ip: &str) -> (r: bool)
    ensures
        r == ipv4_ok(ip@),
{
    let parts = split_char(ip, '.');
    if parts.len() != 4 {
        return false;
    }
    for i in 0..4usize
        invariant
            parts@.len() == 4,
            parts@.map_values(|p: String| p@) == split_spec(ip@, '.'),
            forall|j: int| 0 <= j < i ==> ipv4_part_ok(#[trigger] split_spec(ip@, '.')[j]),
    {
        let part = parts[i].as_str();
        assert(part@ == split_spec(ip@, '.')[i as int]);
        let pc = chars_of(part);
        let n = pc.len();
        if n == 0 || n > 3 {
            return false;
        }
        if n > 1 && pc[0] == '0' {
            return false;
        }
        assert(pc@.subrange(0, n as int) =~= pc@);
        if !digits_within(&pc, 0, 255) {
            return false;
        }
    }
    true
}

/// What `s.parse::<u64>()` gives: an optional `+`, then at least one
/// decimal digit, with a value that fits in 64 bits.
pub open spec fn parsed_u64(s: Seq<char>) -> Option<u64> {
    let d = unsigned_digits(s);
    if d.len() > 0 && all_digits(d) && digits_value(d) <= u64::MAX {
        Some(digits_value(d) as u64)
    } else {
        None
    }
}

/// `s.parse::<u64>().ok()`.
pub fn parse_u64(s: &str) -> (r: Option<u64>)
    ensures
        r == parsed_u64(s@),
{
    let v = chars_of(s);
    let n = v.len();
    if n == 0 {
        return None;
    }
    let start: usize = if v[0] == '+' { 1 } else { 0 };
    let ghost d = s@.subrange(start as int, n as int);
    assert(unsigned_digits(s@) =~= d);
    if start == n {
        return None;
    }
    let mut value: u64 = 0;
    let mut overflow = false;
    let mut i = start;
    assert(v@.subrange(start as int, start as int) =~= Seq::<char>::empty());
    while i < n
        invariant
            start <= i <= n,
            n == v@.len(),
            v@ == s@,
            d == s@.subrange(start as int, n as int),
            unsigned_digits(s@) == d,
            d.len() > 0,
            all_digits(v@.subrange(start as int, i as int)),
            overflow == (digits_value(v@.subrange(start as int, i as int)) > u64::MAX),
            !overflow ==> value == digits_value(v@.subrange(start as int, i as int)),
        decreases n - i,
    {
        let c = v[i];
        let ghost prefix = v@.subrange(start as int, i as int);
        let ghost next = v@.subrange(start as int, i + 1);
        assert(next.drop_last() =~= prefix);
        assert(next.last() == c);
        if !('0' <= c && c <= '9') {
            assert(!all_digits(d)) by {
                assert(d[i - start] == c);
            }
            return None;
        }
        let digit = (c as u64) - ('0' as u64);
        assert(digits_value(next) == digits_value(prefix) * 10 + digit);
        if !overflow {
            match value.checked_mul(10) {
                Some(m) => match m.checked_add(digit) {
                    Some(x) => {
                        value = x;
                    },
                    None => {
                        overflow = true;
                    },
                },
                None => {
                    overflow = true;
                },
            }
        }
        assert(all_digits(next)) by {
            assert forall|k: int| 0 <= k < next.len() implies is_digit(#[trigger] next[k]) by {
                if k < prefix.len() {
                    assert(next[k] == prefix[k]);
                }
            }
        }
        i = i + 1;
    }
    if overflow {
        None
    } else {
        Some(value)
    }
}

} // verus!
