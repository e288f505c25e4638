//! Random identifiers: API keys, console codes, flags, join codes, box
//! passwords and MAC addresses. The randomness comes from `rand`; what is
//! built from the random draws is stated exactly.
use crate::text::{hex_byte, push_char, push_hex_byte};
use rand::Rng;
use vstd::prelude::*;

verus! {

/// `rand::random::<u8>()`: any byte.
#[verifier::external_body]
pub(crate) fn random_byte() -> (b: u8) {
    rand::random::<u8>()
}

/// `rand::random::<u64>()`: any number.
#[verifier::external_body]
pub(crate) fn random_u64() -> (n: u64) {
    rand::random::<u64>()
}

/// `rand::rng().random_range(0..n)`: a number below `n`.
#[verifier::external_body]
pub(crate) fn random_below(n: usize) -> (r: usize)
    requires
        n > 0,
    ensures
        r < n,
{
    rand::rng().random_range(0..n)
}

/// `rand::rng().sample(rand::distr::Alphabetic)`: an ASCII letter, as a byte.
#[verifier::external_body]
pub(crate) fn random_alphabetic() -> (b: u8)
    ensures
        (65 <= b <= 90) || (97 <= b <= 122),
{
    rand::rng().sample(rand::distr::Alphabetic)
}

/// Lowercase hexadecimal rendering of the bytes, two digits each.
pub open spec fn hex_encode(bytes: Seq<u8>) -> Seq<char>
    decreases bytes.len(),
{
    if bytes.len() == 0 {
        Seq::empty()
    } else {
        hex_encode(bytes.drop_last()) + hex_byte(bytes.last())
    }
}

/// The bytes rendered as lowercase hexadecimal, two digits each.
pub fn hex_string_from_bytes(bytes: &Vec<u8>) -> (s: String)
    ensures
        s@ == hex_encode(bytes@),
{
    let mut s = String::new();
    let n = bytes.len();
    for i in 0..n
        invariant
            n == bytes@.len(),
            s@ == hex_encode(bytes@.take(i as int)),
    {
        push_hex_byte(&mut s, bytes[i]);
        assert(bytes@.take(i + 1).drop_last() =~= bytes@.take(i as int));
    }
    assert(bytes@.take(n as int) =~= bytes@);
    s
}

/// `length` random bytes rendered as lowercase hexadecimal.
pub fn generate_hex_string(length: usize) -> (s: String)
    ensures
        exists|bytes: Seq<u8>| bytes.len() == length && s@ == hex_encode(bytes),
{
    let mut bytes: Vec<u8> = Vec::new();
    for _i in 0..length
        invariant
            bytes@.len() == _i,
    {
        bytes.push(random_byte());
    }
    hex_string_from_bytes(&bytes)
}

/// The characters from which alphanumeric codes are drawn.
pub open spec fn alphanumeric_chars() -> Seq<char> {
    "abcdefghijklmnopqrstuvwxyzABCDEFGHIJKLMNOPQRSTUVWXYZ0123456789"@
}

/// The characters from which lowercase codes are drawn.
pub open spec fn lowercase_chars() -> Seq<char> {
    "abcdefghijklmnopqrstuvwxyz"@
}

/// The character of `charset` at each of the positions.
pub open spec fn pick_chars(charset: Seq<char>, picks: Seq<usize>) -> Seq<char> {
    picks.map_values(|i: usize| charset[i as int])
}

/// The characters of `charset` at the given positions.
pub fn string_from_picks(charset: &Vec<char>, picks: &Vec<usize>) -> (s: String)
    requires
        forall|i: int| 0 <= i < picks@.len() ==> picks@[i] < charset@.len(),
    ensures
        s@ == pick_chars(charset@, picks@),
{
    let mut s = String::new();
    let n = picks.len();
    for i in 0..n
        invariant
            n == picks@.len(),
            forall|i: int| 0 <= i < picks@.len() ==> picks@[i] < charset@.len(),
            s@ == pick_chars(charset@, picks@.take(i as int)),
    {
        push_char(&mut s, charset[picks[i]]);
        assert(pick_chars(charset@, picks@.take(i + 1)) =~= pick_chars(charset@, picks@.take(i as int)).push(
            charset@[picks@[i as int] as int],
        ));
    }
    assert(picks@.take(n as int) =~= picks@);
    s
}

fn random_picks(length: usize, bound: usize) -> (picks: Vec<usize>)
    requires
        bound > 0,
    ensures
        picks@.len() == length,
        forall|i: int| 0 <= i < picks@.len() ==> picks@[i] < bound,
{
    let mut picks: Vec<usize> = Vec::new();
    for i in 0..length
        invariant
            bound > 0,
            picks@.len() == i,
            forall|j: int| 0 <= j < picks@.len() ==> picks@[j] < bound,
    {
        picks.push(random_below(bound));
    }
    picks
}

/// `length` characters drawn from `charset`.
pub fn generate_from_charset(charset: &str, length: usize) -> (s: String)
    requires
        charset@.len() > 0,
    ensures
        s@.len() == length,
        forall|i: int| 0 <= i < s@.len() ==> charset@.contains(#[trigger] s@[i]),
{
    let chars = crate::text::chars_of(charset);
    let picks = random_picks(length, chars.len());
    let s = string_from_picks(&chars, &picks);
    assert forall|i: int| 0 <= i < s@.len() implies charset@.contains(#[trigger] s@[i]) by {
        assert(s@[i] == charset@[picks@[i] as int]);
    }
    s
}

/// `length` random letters and digits.
pub fn generate_alphanumeric_string(length: usize) -> (s: String)
    ensures
        s@.len() == length,
        forall|i: int| 0 <= i < s@.len() ==> alphanumeric_chars().contains(#[trigger] s@[i]),
{
    proof { reveal_strlit("abcdefghijklmnopqrstuvwxyzABCDEFGHIJKLMNOPQRSTUVWXYZ0123456789"); }
    generate_from_charset("abcdefghijklmnopqrstuvwxyzABCDEFGHIJKLMNOPQRSTUVWXYZ0123456789", length)
}

/// `length` random lowercase letters.
pub fn generate_lowercase_string(length: usize) -> (s: String)
    ensures
        s@.len() == length,
        forall|i: int| 0 <= i < s@.len() ==> lowercase_chars().contains(#[trigger] s@[i]),
{
    proof { reveal_strlit("abcdefghijklmnopqrstuvwxyz"); }
    generate_from_charset("abcdefghijklmnopqrstuvwxyz", length)
}

/// An ASCII letter.
pub open spec fn is_ascii_letter(c: char) -> bool {
    ('A' <= c <= 'Z') || ('a' <= c <= 'z')
}

/// `length` random ASCII letters (a box password).
pub fn generate_alphabetic_string(length: usize) -> (s: String)
    ensures
        s@.len() == length,
        forall|i: int| 0 <= i < s@.len() ==> is_ascii_letter(#[trigger] s@[i]),
{
    let mut s = String::new();
    for i in 0..length
        invariant
            s@.len() == i,
            forall|j: int| 0 <= j < s@.len() ==> is_ascii_letter(#[trigger] s@[j]),
    {
        let b = random_alphabetic();
        let c = b as char;
        push_char(&mut s, c);
    }
    s
}

/// Largest team join code, plus one.
pub const JOIN_CODE_LIMIT: u64 = 1_000_000_000;

/// The join code drawn from a random number: its last nine decimal digits.
pub fn join_code_from(n: u64) -> (code: u64)
    ensures
        code == n % JOIN_CODE_LIMIT,
        code < JOIN_CODE_LIMIT,
{
    n % JOIN_CODE_LIMIT
}

/// A random team join code below one billion.
pub fn generate_join_code() -> (code: u64)
    ensures
        code < JOIN_CODE_LIMIT,
{
    join_code_from(random_u64())
}

} // verus!
