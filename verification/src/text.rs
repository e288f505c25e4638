//! Text primitives shared by the rest of the library: character access,
//! concatenation, decimal and hexadecimal rendering, splitting, trimming and
//! substring replacement, each stated over `Seq<char>`.
use vstd::prelude::*;

verus! {

// ---------------------------------------------------------------------------
// Unicode classification and case mapping (std, named).
// ---------------------------------------------------------------------------

/// Whether `c` has the Unicode `White_Space` property, which is what
/// `char::is_whitespace` tests: tab to carriage return, space, next line,
/// no-break space, ogham space mark, the spaces from en quad to hair space,
/// line and paragraph separators, narrow no-break space, medium
/// mathematical space and ideographic space.
pub open spec fn is_unicode_whitespace(c: char) -> bool {
    let u = c as u32;
    ||| 0x09 <= u <= 0x0D
    ||| u == 0x20
    ||| u == 0x85
    ||| u == 0xA0
    ||| u == 0x1680
    ||| 0x2000 <= u <= 0x200A
    ||| u == 0x2028
    ||| u == 0x2029
    ||| u == 0x202F
    ||| u == 0x205F
    ||| u == 0x3000
}

/// Whether `char::is_alphanumeric` holds of `c`.
pub uninterp spec fn is_unicode_alphanumeric(c: char) -> bool;

/// Whether `char::is_numeric` holds of `c`.
pub uninterp spec fn is_unicode_numeric(c: char) -> bool;

/// What `str::to_lowercase` returns for the given characters.
pub uninterp spec fn unicode_lowercase(s: Seq<char>) -> Seq<char>;

/// `char::is_whitespace`: whether `c` has the `White_Space` property.
pub fn char_is_whitespace(c: char) -> (r: bool)
    ensures
        r == is_unicode_whitespace(c),
{
    let u = c as u32;
    (0x09 <= u && u <= 0x0D) || u == 0x20 || u == 0x85 || u == 0xA0 || u == 0x1680 || (0x2000 <= u && u <= 0x200A)
        || u == 0x2028 || u == 0x2029 || u == 0x202F || u == 0x205F || u == 0x3000
}

/// `char::is_alphanumeric`, named `is_unicode_alphanumeric`.
#[verifier::external_body]
pub(crate) fn char_is_alphanumeric(c: char) -> (r: bool)
    ensures
        r == is_unicode_alphanumeric(c),
{
    c.is_alphanumeric()
}

/// `char::is_numeric`, named `is_unicode_numeric`.
#[verifier::external_body]
pub(crate) fn char_is_numeric(c: char) -> (r: bool)
    ensures
        r == is_unicode_numeric(c),
{
    c.is_numeric()
}

/// `str::to_lowercase`; the result is named `unicode_lowercase` of the input.
#[verifier::external_body]
pub(crate) fn to_lowercase(s: &str) -> (r: String)
    ensures
        r@ == unicode_lowercase(s@),
{
    s.to_lowercase()
}

/// `String::push`: appends one character.
#[verifier::external_body]
pub(crate) fn push_char(s: &mut String, c: char)
    ensures
        final(s)@ == old(s)@.push(c),
{
    s.push(c);
}

// ---------------------------------------------------------------------------
// Building strings
// ---------------------------------------------------------------------------

/// The characters of `s`, in order.
pub fn chars_of(s: &str) -> (v: Vec<char>)
    ensures
        v@ == s@,
{
    let mut v: Vec<char> = Vec::new();
    for c in it: s.chars()
        invariant
            v@ == it.seq().take(it.index() as int),
    {
        v.push(c);
    }
    v
}

/// A string holding exactly the given characters.
pub fn string_of(v: &[char]) -> (s: String)
    ensures
        s@ == v@,
{
    let mut s = String::new();
    let n = v.len();
    for i in 0..n
        invariant
            n == v@.len(),
            s@ == v@.take(i as int),
    {
        push_char(&mut s, v[i]);
        assert(v@.take(i + 1) == v@.take(i as int).push(v@[i as int]));
    }
    assert(v@.take(n as int) == v@);
    s
}

/// `a` followed by `b`.
pub fn concat(a: &str, b: &str) -> (s: String)
    ensures
        s@ == a@ + b@,
{
    let mut s = a.to_owned();
    s.append(b);
    s
}

/// `a`, `b`, `c` one after the other.
pub fn concat3(a: &str, b: &str, c: &str) -> (s: String)
    ensures
        s@ == a@ + b@ + c@,
{
    let mut s = a.to_owned();
    s.append(b);
    s.append(c);
    s
}

/// The concatenation of all the pieces.
pub open spec fn flatten(pieces: Seq<Seq<char>>) -> Seq<char>
    decreases pieces.len(),
{
    if pieces.len() == 0 {
        Seq::empty()
    } else {
        flatten(pieces.drop_last()) + pieces.last()
    }
}

/// Concatenates all the pieces, in order.
pub fn concat_all(pieces: &Vec<&str>) -> (s: String)
    ensures
        s@ == flatten(pieces@.map_values(|p: &str| p@)),
{
    let ghost views = pieces@.map_values(|p: &str| p@);
    let mut s = String::new();
    let n = pieces.len();
    for i in 0..n
        invariant
            n == pieces@.len(),
            views == pieces@.map_values(|p: &str| p@),
            s@ == flatten(views.take(i as int)),
    {
        s.append(pieces[i]);
        assert(views.take(i + 1).drop_last() == views.take(i as int));
    }
    assert(views.take(n as int) == views);
    s
}

// ---------------------------------------------------------------------------
// Decimal and hexadecimal rendering
// ---------------------------------------------------------------------------

/// The ASCII digit of a value below ten.
pub open spec fn digit_char(d: nat) -> char {
    if d == 0 { '0' }
    else if d == 1 { '1' }
    else if d == 2 { '2' }
    else if d == 3 { '3' }
    else if d == 4 { '4' }
    else if d == 5 { '5' }
    else if d == 6 { '6' }
    else if d == 7 { '7' }
    else if d == 8 { '8' }
    else { '9' }
}

/// Decimal rendering of a natural number, as `Display` prints it.
pub open spec fn decimal(n: nat) -> Seq<char>
    decreases n,
{
    if n < 10 {
        seq![digit_char(n)]
    } else {
        decimal(n / 10).push(digit_char(n % 10))
    }
}

/// Decimal rendering of an integer, with a leading `-` when negative.
pub open spec fn signed_decimal(n: int) -> Seq<char> {
    if n < 0 {
        seq!['-'] + decimal((-n) as nat)
    } else {
        decimal(n as nat)
    }
}

fn digit(d: u64) -> (c: char)
    requires
        d < 10,
    ensures
        c == digit_char(d as nat),
{
    if d == 0 { '0' }
    else if d == 1 { '1' }
    else if d == 2 { '2' }
    else if d == 3 { '3' }
    else if d == 4 { '4' }
    else if d == 5 { '5' }
    else if d == 6 { '6' }
    else if d == 7 { '7' }
    else if d == 8 { '8' }
    else { '9' }
}

/// `n.to_string()` for an unsigned integer.
pub fn u64_to_decimal(n: u64) -> (s: String)
    ensures
        s@ == decimal(n as nat),
    decreases n,
{
    if n < 10 {
        let mut s = String::new();
        push_char(&mut s, digit(n));
        s
    } else {
        let mut s = u64_to_decimal(n / 10);
        push_char(&mut s, digit(n % 10));
        s
    }
}

/// `n.to_string()` for a signed integer.
pub fn i64_to_decimal(n: i64) -> (s: String)
    ensures
        s@ == signed_decimal(n as int),
{
    if n < 0 {
        let magnitude: u64 = ((-(n + 1)) as u64) + 1;
        let digits = u64_to_decimal(magnitude);
        let mut s = String::new();
        push_char(&mut s, '-');
        s.append(digits.as_str());
        s
    } else {
        u64_to_decimal(n as u64)
    }
}

/// The lowercase hexadecimal digit of a value below sixteen.
pub open spec fn hex_char(d: nat) -> char {
    if d < 10 {
        digit_char(d)
    } else if d == 10 { 'a' }
    else if d == 11 { 'b' }
    else if d == 12 { 'c' }
    else if d == 13 { 'd' }
    else if d == 14 { 'e' }
    else { 'f' }
}

/// `format!("{:02x}", b)`: two lowercase hexadecimal digits.
pub open spec fn hex_byte(b: u8) -> Seq<char> {
    seq![hex_char((b / 16) as nat), hex_char((b % 16) as nat)]
}

fn hex_digit(d: u8) -> (c: char)
    requires
        d < 16,
    ensures
        c == hex_char(d as nat),
{
    if d < 10 {
        digit(d as u64)
    } else if d == 10 { 'a' }
    else if d == 11 { 'b' }
    else if d == 12 { 'c' }
    else if d == 13 { 'd' }
    else if d == 14 { 'e' }
    else { 'f' }
}

/// Appends `format!("{:02x}", b)` to `s`.
pub fn push_hex_byte(s: &mut String, b: u8)
    ensures
        final(s)@ == old(s)@ + hex_byte(b),
{
    push_char(s, hex_digit(b / 16));
    push_char(s, hex_digit(b % 16));
}

// ---------------------------------------------------------------------------
// Case-insensitive comparison
// ---------------------------------------------------------------------------

/// ASCII lowercase of one character; other characters are unchanged.
pub open spec fn ascii_lower(c: char) -> char {
    if 'A' <= c && c <= 'Z' {
        ((c as u32) + 32) as char
    } else {
        c
    }
}

/// `str::eq_ignore_ascii_case`.
pub open spec fn eq_ignore_ascii_case(a: Seq<char>, b: Seq<char>) -> bool {
    &&& a.len() == b.len()
    &&& forall|i: int| 0 <= i < a.len() ==> ascii_lower(#[trigger] a[i]) == ascii_lower(b[i])
}

fn lower_char(c: char) -> (r: char)
    ensures
        r == ascii_lower(c),
{
    if 'A' <= c && c <= 'Z' {
        let code: u32 = (c as u32) + 32;
        char_from_code(code)
    } else {
        c
    }
}

/// The character whose code is `code`, for an ASCII lowercase letter.
fn char_from_code(code: u32) -> (c: char)
    requires
        97 <= code <= 122,
    ensures
        c == code as char,
{
    let b: u8 = code as u8;
    b as char
}

/// Compares two strings ignoring the case of ASCII letters.
pub fn str_eq_ignore_ascii_case(a: &str, b: &str) -> (r: bool)
    ensures
        r == eq_ignore_ascii_case(a@, b@),
{
    let av = chars_of(a);
    let bv = chars_of(b);
    if av.len() != bv.len() {
        return false;
    }
    let n = av.len();
    for i in 0..n
        invariant
            n == av@.len(),
            n == bv@.len(),
            av@ == a@,
            bv@ == b@,
            forall|j: int| 0 <= j < i ==> ascii_lower(#[trigger] a@[j]) == ascii_lower(b@[j]),
    {
        if lower_char(av[i]) != lower_char(bv[i]) {
            return false;
        }
    }
    true
}

/// Whether two strings hold the same characters.
pub fn str_eq(a: &str, b: &str) -> (r: bool)
    ensures
        r == (a@ == b@),
{
    let av = chars_of(a);
    let bv = chars_of(b);
    if av.len() != bv.len() {
        return false;
    }
    let n = av.len();
    for i in 0..n
        invariant
            n == av@.len(),
            n == bv@.len(),
            av@ == a@,
            bv@ == b@,
            forall|j: int| 0 <= j < i ==> a@[j] == b@[j],
    {
        if av[i] != bv[i] {
            return false;
        }
    }
    assert(a@ =~= b@);
    true
}

/// Whether `s` begins with `prefix`.
pub open spec fn has_prefix(s: Seq<char>, prefix: Seq<char>) -> bool {
    prefix.len() <= s.len() && s.subrange(0, prefix.len() as int) == prefix
}

/// `str::starts_with` for a string pattern.
pub fn starts_with(s: &str, prefix: &str) -> (r: bool)
    ensures
        r == has_prefix(s@, prefix@),
{
    let sv = chars_of(s);
    let pv = chars_of(prefix);
    if pv.len() > sv.len() {
        return false;
    }
    let n = pv.len();
    for i in 0..n
        invariant
            n == pv@.len(),
            n <= sv@.len(),
            sv@ == s@,
            pv@ == prefix@,
            forall|j: int| 0 <= j < i ==> s@[j] == prefix@[j],
    {
        if sv[i] != pv[i] {
            return false;
        }
    }
    assert(s@.subrange(0, n as int) =~= prefix@);
    true
}

/// Whether `pattern` occurs somewhere in `s`.
pub open spec fn contains_seq(s: Seq<char>, pattern: Seq<char>) -> bool {
    exists|i: int| 0 <= i <= s.len() - pattern.len() && #[trigger] s.subrange(i, i + pattern.len()) == pattern
}

/// Whether `pattern` occurs at position `i` of `s`.
pub open spec fn occurs_at(s: Seq<char>, i: int, pattern: Seq<char>) -> bool {
    0 <= i && i + pattern.len() <= s.len() && s.subrange(i, i + pattern.len() as int) == pattern
}

fn matches_at(s: &Vec<char>, i: usize, p: &Vec<char>) -> (r: bool)
    requires
        i <= s@.len(),
    ensures
        r == occurs_at(s@, i as int, p@),
{
    if p.len() > s.len() - i {
        return false;
    }
    let n = p.len();
    let mut j: usize = 0;
    while j < n
        invariant
            n == p@.len(),
            i as int + n as int <= s.len(),
            j <= n,
            forall|k: int| 0 <= k < j ==> s@[i + k] == p@[k],
        decreases n - j,
    {
        if s[i + j] != p[j] {
            assert(s@.subrange(i as int, i + n)[j as int] != p@[j as int]);
            return false;
        }
        j = j + 1;
    }
    assert(s@.subrange(i as int, i + n) =~= p@);
    true
}

/// `str::contains` for a string pattern.
pub fn contains(s: &str, pattern: &str) -> (r: bool)
    ensures
        r == contains_seq(s@, pattern@),
{
    let sv = chars_of(s);
    let pv = chars_of(pattern);
    if pv.len() > sv.len() {
        return false;
    }
    if pv.len() == 0 {
        assert(s@.subrange(0, 0 + pattern@.len() as int) =~= pattern@);
        return true;
    }
    let last = sv.len() - pv.len();
    let mut i: usize = 0;
    while i <= last
        invariant
            sv@ == s@,
            pv@ == pattern@,
            last == s@.len() - pattern@.len(),
            pattern@.len() > 0,
            s@.len() <= usize::MAX,
            i <= last + 1,
            forall|k: int| 0 <= k < i ==> !occurs_at(s@, k, pattern@),
        decreases last + 1 - i,
    {
        if matches_at(&sv, i, &pv) {
            assert(s@.subrange(i as int, i + pattern@.len()) == pattern@);
            return true;
        }
        i = i + 1;
    }
    assert forall|k: int| 0 <= k <= s@.len() - pattern@.len() implies #[trigger] s@.subrange(k, k + pattern@.len()) != pattern@ by {
        assert(!occurs_at(s@, k, pattern@));
    }
    false
}

// ---------------------------------------------------------------------------
// Replacement
// ---------------------------------------------------------------------------

/// `str::replace`: every non-overlapping occurrence of `pattern`, found from
/// the left, is replaced by `with`.
pub open spec fn replace_all(s: Seq<char>, pattern: Seq<char>, with: Seq<char>) -> Seq<char>
    decreases s.len(),
{
    if s.len() == 0 {
        Seq::empty()
    } else if pattern.len() > 0 && pattern.len() <= s.len() && s.subrange(0, pattern.len() as int)
        == pattern {
        with + replace_all(s.subrange(pattern.len() as int, s.len() as int), pattern, with)
    } else {
        seq![s[0]] + replace_all(s.subrange(1, s.len() as int), pattern, with)
    }
}

/// `s.replace(pattern, with)` for a non-empty pattern.
pub fn replace(s: &str, pattern: &str, with: &str) -> (r: String)
    requires
        pattern@.len() > 0,
    ensures
        r@ == replace_all(s@, pattern@, with@),
{
    let sv = chars_of(s);
    let pv = chars_of(pattern);
    let n = sv.len();
    let mut out = String::new();
    let mut i: usize = 0;
    assert(s@.subrange(0, n as int) =~= s@);
    while i < n
        invariant
            sv@ == s@,
            pv@ == pattern@,
            pattern@.len() > 0,
            n == s@.len(),
            i <= n,
            out@ + replace_all(s@.subrange(i as int, n as int), pattern@, with@) == replace_all(
                s@,
                pattern@,
                with@,
            ),
        decreases n - i,
    {
        let ghost rest = s@.subrange(i as int, n as int);
        if matches_at(&sv, i, &pv) {
            assert(rest.subrange(0, pattern@.len() as int) =~= pattern@);
            assert(rest.subrange(pattern@.len() as int, rest.len() as int) =~= s@.subrange(
                i + pattern@.len(),
                n as int,
            ));
            let ghost old_out = out@;
            out.append(with);
            i = i + pv.len();
            assert(out@ + replace_all(s@.subrange(i as int, n as int), pattern@, with@) =~= old_out + (
            with@ + replace_all(s@.subrange(i as int, n as int), pattern@, with@)));
        } else {
            assert(!(pattern@.len() <= rest.len() && rest.subrange(0, pattern@.len() as int) == pattern@)) by {
                if pattern@.len() <= rest.len() && rest.subrange(0, pattern@.len() as int) == pattern@ {
                    assert(s@.subrange(i as int, i + pattern@.len()) =~= rest.subrange(0, pattern@.len() as int));
                }
            }
            assert(rest.subrange(1, rest.len() as int) =~= s@.subrange(i + 1, n as int));
            push_char(&mut out, sv[i]);
            i = i + 1;
        }
    }
    assert(s@.subrange(n as int, n as int) =~= Seq::<char>::empty());
    out
}

// ---------------------------------------------------------------------------
// Trimming and whitespace splitting
// ---------------------------------------------------------------------------

/// Number of leading characters that are Unicode whitespace.
pub open spec fn leading_ws(s: Seq<char>) -> nat
    decreases s.len(),
{
    if s.len() > 0 && is_unicode_whitespace(s[0]) {
        1 + leading_ws(s.subrange(1, s.len() as int))
    } else {
        0
    }
}

/// Number of trailing characters that are Unicode whitespace.
pub open spec fn trailing_ws(s: Seq<char>) -> nat
    decreases s.len(),
{
    if s.len() > 0 && is_unicode_whitespace(s.last()) {
        1 + trailing_ws(s.drop_last())
    } else {
        0
    }
}

/// `str::trim`: leading and trailing Unicode whitespace removed.
pub open spec fn trim_spec(s: Seq<char>) -> Seq<char> {
    let front = s.subrange(leading_ws(s) as int, s.len() as int);
    front.subrange(0, front.len() - trailing_ws(front))
}

proof fn lemma_leading_ws_bound(s: Seq<char>)
    ensures
        leading_ws(s) <= s.len(),
    decreases s.len(),
{
    if s.len() > 0 && is_unicode_whitespace(s[0]) {
        lemma_leading_ws_bound(s.subrange(1, s.len() as int));
    }
}

proof fn lemma_trailing_ws_bound(s: Seq<char>)
    ensures
        trailing_ws(s) <= s.len(),
    decreases s.len(),
{
    if s.len() > 0 && is_unicode_whitespace(s.last()) {
        lemma_trailing_ws_bound(s.drop_last());
    }
}

/// `s.trim()`.
pub fn trim(s: &str) -> (r: String)
    ensures
        r@ == trim_spec(s@),
{
    let v = chars_of(s);
    let n = v.len();
    let mut start: usize = 0;
    proof { lemma_leading_ws_bound(s@); }
    assert(s@.subrange(0, n as int) =~= s@);
    while start < n && char_is_whitespace(v[start])
        invariant
            v@ == s@,
            n == s@.len(),
            start <= n,
            leading_ws(s@) == start + leading_ws(s@.subrange(start as int, n as int)),
        decreases n - start,
    {
        assert(s@.subrange(start as int, n as int).subrange(1, (n - start) as int) =~= s@.subrange(start + 1, n as int));
        start = start + 1;
    }
    let ghost front = s@.subrange(start as int, n as int);
    assert(leading_ws(front) == 0);
    assert(front == s@.subrange(leading_ws(s@) as int, s@.len() as int));
    let mut end: usize = n;
    proof { lemma_trailing_ws_bound(front); }
    while end > start && char_is_whitespace(v[end - 1])
        invariant
            v@ == s@,
            n == s@.len(),
            start <= end <= n,
            front == s@.subrange(start as int, n as int),
            trailing_ws(front) == (n - end) + trailing_ws(s@.subrange(start as int, end as int)),
        decreases end - start,
    {
        assert(s@.subrange(start as int, end as int).drop_last() =~= s@.subrange(start as int, end - 1));
        end = end - 1;
    }
    let mut r = String::new();
    let mut i = start;
    while i < end
        invariant
            v@ == s@,
            n == s@.len(),
            start <= i <= end <= n,
            r@ == s@.subrange(start as int, i as int),
        decreases end - i,
    {
        push_char(&mut r, v[i]);
        assert(s@.subrange(start as int, i + 1) =~= s@.subrange(start as int, i as int).push(s@[i as int]));
        i = i + 1;
    }
    assert(trim_spec(s@) =~= s@.subrange(start as int, end as int));
    r
}

// ---------------------------------------------------------------------------
// Splitting on a character
// ---------------------------------------------------------------------------

/// `s.split(sep)`: the pieces between occurrences of `sep`; there is always
/// one more piece than there are separators.
pub open spec fn split_spec(s: Seq<char>, sep: char) -> Seq<Seq<char>>
    decreases s.len(),
{
    if s.len() == 0 {
        seq![Seq::empty()]
    } else {
        let rest = split_spec(s.drop_last(), sep);
        if s.last() == sep {
            rest.push(Seq::empty())
        } else {
            rest.update(rest.len() - 1, rest.last().push(s.last()))
        }
    }
}

proof fn lemma_split_nonempty(s: Seq<char>, sep: char)
    ensures
        split_spec(s, sep).len() >= 1,
    decreases s.len(),
{
    if s.len() > 0 {
        lemma_split_nonempty(s.drop_last(), sep);
    }
}

/// `s.split(sep).collect::<Vec<_>>()`.
pub fn split_char(s: &str, sep: char) -> (parts: Vec<String>)
    ensures
        parts@.map_values(|p: String| p@) == split_spec(s@, sep),
        parts@.len() >= 1,
{
    let v = chars_of(s);
    let n = v.len();
    let mut parts: Vec<String> = Vec::new();
    let mut cur = String::new();
    for i in 0..n
        invariant
            v@ == s@,
            n == s@.len(),
            parts@.map_values(|p: String| p@).push(cur@) == split_spec(s@.take(i as int), sep),
    {
        proof { lemma_split_nonempty(s@.take(i as int), sep); }
        assert(s@.take(i + 1).drop_last() =~= s@.take(i as int));
        if v[i] == sep {
            let done = cur;
            parts.push(done);
            cur = String::new();
            assert(parts@.map_values(|p: String| p@).push(cur@) =~= split_spec(s@.take(i as int), sep).push(Seq::empty()));
        } else {
            let ghost before = cur@;
            push_char(&mut cur, v[i]);
            assert(parts@.map_values(|p: String| p@).push(cur@) =~= split_spec(s@.take(i as int), sep).update(
                split_spec(s@.take(i as int), sep).len() - 1,
                before.push(v@[i as int]),
            ));
        }
    }
    parts.push(cur);
    assert(s@.take(n as int) =~= s@);
    proof { lemma_split_nonempty(s@, sep); }
    parts
}

/// Consecutive pairs of `items`: the first with the second, the third with
/// the fourth, and so on; an odd last item is left out.
pub open spec fn pairs_spec(items: Seq<Seq<char>>) -> Seq<(Seq<char>, Seq<char>)> {
    Seq::new(items.len() / 2, |i: int| (items[2 * i], items[2 * i + 1]))
}

/// The view of a sequence of string pairs.
pub open spec fn pairs_view(v: Seq<(String, String)>) -> Seq<(Seq<char>, Seq<char>)> {
    v.map_values(|p: (String, String)| (p.0@, p.1@))
}

/// Groups a flat list (as Redis returns a hash) into pairs, as
/// `chunks(2)` keeping only full chunks does.
pub fn pairs_of(items: &Vec<String>) -> (r: Vec<(String, String)>)
    ensures
        pairs_view(r@) == pairs_spec(items@.map_values(|s: String| s@)),
{
    let ghost flat = items@.map_values(|s: String| s@);
    let mut r: Vec<(String, String)> = Vec::new();
    let mut i: usize = 0;
    let n = items.len() / 2;
    while i < n
        invariant
            n == items@.len() / 2,
            items@.len() == items.len(),
            i <= n,
            flat == items@.map_values(|s: String| s@),
            r@.len() == i,
            forall|k: int| 0 <= k < i ==> (#[trigger] r@[k]).0@ == flat[2 * k] && r@[k].1@ == flat[2 * k + 1],
        decreases n - i,
    {
        assert(2 * i + 1 < items.len());
        let a = items[2 * i].clone();
        let b = items[2 * i + 1].clone();
        r.push((a, b));
        i = i + 1;
    }
    assert(pairs_view(r@) =~= pairs_spec(flat));
    r
}

/// The scan behind `split_whitespace`: the tokens completed so far and the
/// token being read.
pub open spec fn ws_scan(s: Seq<char>) -> (Seq<Seq<char>>, Seq<char>)
    decreases s.len(),
{
    if s.len() == 0 {
        (Seq::empty(), Seq::empty())
    } else {
        let (done, cur) = ws_scan(s.drop_last());
        if is_unicode_whitespace(s.last()) {
            if cur.len() > 0 {
                (done.push(cur), Seq::empty())
            } else {
                (done, Seq::empty())
            }
        } else {
            (done, cur.push(s.last()))
        }
    }
}

/// `s.split_whitespace()`: the non-empty runs of non-whitespace characters.
pub open spec fn ws_tokens(s: Seq<char>) -> Seq<Seq<char>> {
    let (done, cur) = ws_scan(s);
    if cur.len() > 0 {
        done.push(cur)
    } else {
        done
    }
}

/// `s.split_whitespace().collect::<Vec<_>>()`.
pub fn split_whitespace(s: &str) -> (tokens: Vec<String>)
    ensures
        tokens@.map_values(|t: String| t@) == ws_tokens(s@),
{
    let v = chars_of(s);
    let n = v.len();
    let mut done: Vec<String> = Vec::new();
    let mut cur = String::new();
    for i in 0..n
        invariant
            v@ == s@,
            n == s@.len(),
            (done@.map_values(|t: String| t@), cur@) == ws_scan(s@.take(i as int)),
    {
        assert(s@.take(i + 1).drop_last() =~= s@.take(i as int));
        assert(s@.take(i + 1).last() == v@[i as int]);
        if char_is_whitespace(v[i]) {
            if cur.as_str().unicode_len() > 0 {
                let token = cur;
                done.push(token);
                cur = String::new();
                assert(done@.map_values(|t: String| t@) =~= ws_scan(s@.take(i as int)).0.push(token@));
            } else {
                cur = String::new();
                assert(cur@ =~= Seq::<char>::empty());
            }
        } else {
            push_char(&mut cur, v[i]);
        }
    }
    assert(s@.take(n as int) =~= s@);
    if cur.as_str().unicode_len() > 0 {
        let token = cur;
        done.push(token);
        assert(done@.map_values(|t: String| t@) =~= ws_scan(s@).0.push(token@));
    }
    done
}

} // verus!
