//! Character-level text helpers shared by the other modules.

use vstd::prelude::*;

verus! {

/// The character for a decimal digit.
pub open spec fn digit_char(d: nat) -> char {
    if d == 0 { '0' }
    else if d == 1 { '1' }
    else if d == 2 { '2' }
    else if d == 3 { '3' }
    else if d == 4 { '4' }
    else if d == 5 { '5' }
    else if d == 6 { '6' }
    else if d == 7 { '7' }
    else if d == 8 { '8' }
    else { '9' }
}

/// Decimal representation of a natural number, without leading zeros.
pub open spec fn decimal(n: nat) -> Seq<char>
    decreases n,
{
    if n < 10 {
        seq![digit_char(n)]
    } else {
        decimal(n / 10).push(digit_char(n % 10))
    }
}

/// The last `width` decimal digits of `n`, padded with leading zeros.
pub open spec fn fixed_digits(n: nat, width: nat) -> Seq<char>
    decreases width,
{
    if width == 0 {
        Seq::empty()
    } else {
        fixed_digits(n / 10, (width - 1) as nat).push(digit_char(n % 10))
    }
}

/// An ASCII decimal digit.
pub open spec fn is_digit(c: char) -> bool {
    '0' <= c && c <= '9'
}

/// The shape of a date and time written as `%Y-%m-%d %H:%M:%S`: the year (four
/// digits, or a sign and more digits outside years 0 to 9999), then
/// `-MM-DD HH:MM:SS` in two-digit fields.
pub open spec fn is_datetime_text(t: Seq<char>) -> bool {
    let n = t.len() as int;
    &&& n >= 19
    &&& is_digit(t[0]) || t[0] == '+' || t[0] == '-'
    &&& forall|i: int| 1 <= i < n - 15 ==> #[trigger] is_digit(t[i])
    &&& t[n - 15] == '-' && t[n - 12] == '-' && t[n - 9] == ' ' && t[n - 6] == ':' && t[n - 3] == ':'
    &&& is_digit(t[n - 14]) && is_digit(t[n - 13]) && is_digit(t[n - 11]) && is_digit(t[n - 10])
    &&& is_digit(t[n - 8]) && is_digit(t[n - 7]) && is_digit(t[n - 5]) && is_digit(t[n - 4])
    &&& is_digit(t[n - 2]) && is_digit(t[n - 1])
}

/// `prefix` is a prefix of `s`.
pub open spec fn has_prefix(s: Seq<char>, prefix: Seq<char>) -> bool {
    prefix.len() <= s.len() && s.subrange(0, prefix.len() as int) == prefix
}

/// The character of a decimal digit.
pub fn digit_to_char(d: u64) -> (c: char)
    requires
        d < 10,
    ensures
        c == digit_char(d as nat),
{
    if d == 0 { '0' }
    else if d == 1 { '1' }
    else if d == 2 { '2' }
    else if d == 3 { '3' }
    else if d == 4 { '4' }
    else if d == 5 { '5' }
    else if d == 6 { '6' }
    else if d == 7 { '7' }
    else if d == 8 { '8' }
    else { '9' }
}

/// `String::push`: appends one character.
#[verifier::external_body]
pub(crate) fn push_char(s: &mut String, c: char)
    ensures
        final(s)@ == old(s)@.push(c),
{
    s.push(c)
}

/// `String::pop`: removes and returns the last character, if any.
#[verifier::external_body]
pub(crate) fn pop_char(s: &mut String) -> (r: Option<char>)
    ensures
        old(s)@.len() == 0 ==> r is None && final(s)@ == old(s)@,
        old(s)@.len() > 0 ==> r == Some(old(s)@.last()) && final(s)@ == old(s)@.drop_last(),
{
    s.pop()
}

/// Appends the decimal representation of `n`.
pub fn push_decimal(s: &mut String, n: u64)
    ensures
        final(s)@ == old(s)@ + decimal(n as nat),
    decreases n,
{
    if n >= 10 {
        push_decimal(s, n / 10);
    }
    push_char(s, digit_to_char(n % 10));
    proof {
        assert(old(s)@ + decimal(n as nat) =~= if n >= 10 {
            old(s)@ + decimal((n / 10) as nat) + seq![digit_char((n % 10) as nat)]
        } else {
            old(s)@ + seq![digit_char((n % 10) as nat)]
        });
    }
}

/// Appends the last `width` digits of `n`, zero-padded.
pub fn push_fixed_digits(s: &mut String, n: u64, width: u64)
    ensures
        final(s)@ == old(s)@ + fixed_digits(n as nat, width as nat),
    decreases width,
{
    if width > 0 {
        push_fixed_digits(s, n / 10, width - 1);
        push_char(s, digit_to_char(n % 10));
        assert(old(s)@ + fixed_digits(n as nat, width as nat) =~= old(s)@ + fixed_digits(
            (n / 10) as nat,
            (width - 1) as nat,
        ) + seq![digit_char((n % 10) as nat)]);
    } else {
        assert(old(s)@ + fixed_digits(n as nat, 0) =~= old(s)@);
    }
}

/// Number of characters of a string slice.
pub fn char_count(s: &str) -> (n: usize)
    ensures
        n == s@.len(),
{
    s.unicode_len()
}

/// Whether `s` starts with `prefix`, character by character.
pub fn starts_with(s: &str, prefix: &str) -> (r: bool)
    ensures
        r == has_prefix(s@, prefix@),
{
    let n = s.unicode_len();
    let m = prefix.unicode_len();
    if m > n {
        return false;
    }
    let mut i: usize = 0;
    while i < m
        invariant
            m == prefix@.len(),
            n == s@.len(),
            m <= n,
            i <= m,
            forall|j: int| 0 <= j < i ==> s@[j] == prefix@[j],
        decreases m - i,
    {
        if s.get_char(i) != prefix.get_char(i) {
            assert(s@.subrange(0, m as int)[i as int] != prefix@[i as int]);
            return false;
        }
        i = i + 1;
    }
    assert(s@.subrange(0, m as int) =~= prefix@);
    true
}

} // verus!

verus! {

/// Whether two string slices hold the same characters.
pub fn str_eq(a: &str, b: &str) -> (r: bool)
    ensures
        r == (a@ == b@),
{
    let n = a.unicode_len();
    let m = b.unicode_len();
    if n != m {
        return false;
    }
    let mut i: usize = 0;
    while i < n
        invariant
            n == a@.len(),
            m == b@.len(),
            n == m,
            i <= n,
            forall|j: int| 0 <= j < i ==> a@[j] == b@[j],
        decreases n - i,
    {
        if a.get_char(i) != b.get_char(i) {
            return false;
        }
        i = i + 1;
    }
    assert(a@ =~= b@);
    true
}

/// A new string holding the characters of `s`.
pub fn owned(s: &str) -> (r: String)
    ensures
        r@ == s@,
{
    String::from_str(s)
}

} // verus!

verus! {

/// The uppercase form of a string, as `str::to_uppercase` computes it.
pub uninterp spec fn uppercase_of(s: Seq<char>) -> Seq<char>;

/// `str::to_uppercase`: the Unicode uppercase mapping of `s`. The mapping
/// itself is left to `uppercase_of`; what is stated beside it is that std maps
/// each character to one or more characters, so the result is empty exactly
/// when `s` is.
#[verifier::external_body]
pub(crate) fn to_uppercase(s: &str) -> (r: String)
    ensures
        r@ == uppercase_of(s@),
        r@.len() == 0 <==> s@.len() == 0,
{
    s.to_uppercase()
}

/// Whether `c` occurs in `s`.
pub fn contains_char(s: &str, c: char) -> (r: bool)
    ensures
        r == s@.contains(c),
{
    let n = s.unicode_len();
    let mut i: usize = 0;
    while i < n
        invariant
            n == s@.len(),
            i <= n,
            forall|j: int| 0 <= j < i ==> s@[j] != c,
        decreases n - i,
    {
        if s.get_char(i) == c {
            assert(s@[i as int] == c);
            return true;
        }
        i = i + 1;
    }
    false
}

/// The views of a sequence of strings.
pub open spec fn texts(v: Seq<String>) -> Seq<Seq<char>> {
    v.map_values(|s: String| s@)
}

} // verus!

verus! {

/// The number of bytes UTF-8 takes for `c`.
pub open spec fn utf8_width(c: char) -> nat {
    let v = c as u32;
    if v < 0x80 {
        1
    } else if v < 0x800 {
        2
    } else if v < 0x10000 {
        3
    } else {
        4
    }
}

/// The number of bytes of `s` in UTF-8, which is what `str::len` counts.
pub open spec fn byte_len(s: Seq<char>) -> nat
    decreases s.len(),
{
    if s.len() == 0 {
        0
    } else {
        utf8_width(s[0]) + byte_len(s.drop_first())
    }
}

/// How many leading characters of `s` fit in its first `b` bytes.
pub open spec fn chars_within(s: Seq<char>, b: int) -> nat
    decreases s.len(),
{
    if s.len() > 0 && utf8_width(s[0]) <= b {
        1 + chars_within(s.drop_first(), b - utf8_width(s[0]))
    } else {
        0
    }
}

/// How many trailing characters of `s` fit in its last `b` bytes.
pub open spec fn tail_chars_within(s: Seq<char>, b: int) -> nat
    decreases s.len(),
{
    if s.len() > 0 && utf8_width(s.last()) <= b {
        1 + tail_chars_within(s.drop_last(), b - utf8_width(s.last()))
    } else {
        0
    }
}

/// The first `b` bytes of `s` end between two characters, so that `&s[..b]`
/// can be taken.
pub open spec fn head_on_boundary(s: Seq<char>, b: nat) -> bool {
    byte_len(s.take(chars_within(s, b as int) as int)) == b
}

/// The last `b` bytes of `s` start between two characters, so that
/// `&s[s.len() - b..]` can be taken.
pub open spec fn tail_on_boundary(s: Seq<char>, b: nat) -> bool {
    byte_len(s.skip(s.len() - tail_chars_within(s, b as int))) == b
}

/// The first `b` bytes of `s`, as `&s[..b]` gives them on a boundary.
pub open spec fn head_bytes(s: Seq<char>, b: nat) -> Seq<char> {
    s.take(chars_within(s, b as int) as int)
}

/// The last `b` bytes of `s`, as `&s[s.len() - b..]` gives them on a boundary.
pub open spec fn tail_bytes(s: Seq<char>, b: nat) -> Seq<char> {
    s.skip(s.len() - tail_chars_within(s, b as int))
}

proof fn lemma_chars_within_bound(s: Seq<char>, b: int)
    ensures
        chars_within(s, b) <= s.len(),
    decreases s.len(),
{
    if s.len() > 0 && utf8_width(s[0]) <= b {
        lemma_chars_within_bound(s.drop_first(), b - utf8_width(s[0]));
    }
}

proof fn lemma_tail_chars_within_bound(s: Seq<char>, b: int)
    ensures
        tail_chars_within(s, b) <= s.len(),
    decreases s.len(),
{
    if s.len() > 0 && utf8_width(s.last()) <= b {
        lemma_tail_chars_within_bound(s.drop_last(), b - utf8_width(s.last()));
    }
}

/// The UTF-8 width of `c`.
pub fn utf8_width_of(c: char) -> (w: u128)
    ensures
        w == utf8_width(c),
{
    let v = c as u32;
    if v < 0x80 {
        1
    } else if v < 0x800 {
        2
    } else if v < 0x10000 {
        3
    } else {
        4
    }
}

/// Whether `s` takes more than `limit` bytes, as `s.len() > limit` asks.
pub fn bytes_exceed(s: &str, limit: usize) -> (r: bool)
    ensures
        r == (byte_len(s@) > limit),
{
    let n = s.unicode_len();
    let mut i: usize = 0;
    let mut acc: u128 = 0;
    assert(s@.skip(0) =~= s@);
    while i < n
        invariant
            n == s@.len(),
            i <= n,
            acc <= limit,
            byte_len(s@) == acc + byte_len(s@.skip(i as int)),
        decreases n - i,
    {
        assert(s@.skip(i as int).drop_first() =~= s@.skip(i + 1));
        acc = acc + utf8_width_of(s.get_char(i));
        if acc > limit as u128 {
            return true;
        }
        i = i + 1;
    }
    false
}

/// How many leading characters of `s` fit in its first `b` bytes.
pub fn head_char_count(s: &str, b: usize) -> (k: usize)
    ensures
        k == chars_within(s@, b as int),
        k <= s@.len(),
{
    let n = s.unicode_len();
    let mut i: usize = 0;
    let mut acc: u128 = 0;
    assert(s@.skip(0) =~= s@);
    while i < n && acc + utf8_width_of(s.get_char(i)) <= b as u128
        invariant
            n == s@.len(),
            i <= n,
            acc <= b,
            chars_within(s@, b as int) == i + chars_within(s@.skip(i as int), b - acc),
        decreases n - i,
    {
        assert(s@.skip(i as int).drop_first() =~= s@.skip(i + 1));
        assert(s@.skip(i as int)[0] == s@[i as int]);
        acc = acc + utf8_width_of(s.get_char(i));
        i = i + 1;
    }
    proof {
        if i < n {
            assert(s@.skip(i as int)[0] == s@[i as int]);
        }
        lemma_chars_within_bound(s@, b as int);
    }
    i
}

/// How many trailing characters of `s` fit in its last `b` bytes.
pub fn tail_char_count(s: &str, b: usize) -> (k: usize)
    ensures
        k == tail_chars_within(s@, b as int),
        k <= s@.len(),
{
    let n = s.unicode_len();
    let mut i: usize = 0;
    let mut acc: u128 = 0;
    assert(s@.take(n as int) =~= s@);
    while i < n && acc + utf8_width_of(s.get_char(n - 1 - i)) <= b as u128
        invariant
            n == s@.len(),
            i <= n,
            acc <= b,
            tail_chars_within(s@, b as int) == i + tail_chars_within(s@.take(n - i), b - acc),
        decreases n - i,
    {
        assert(s@.take(n - i).drop_last() =~= s@.take(n - i - 1));
        assert(s@.take(n - i).last() == s@[n - 1 - i]);
        acc = acc + utf8_width_of(s.get_char(n - 1 - i));
        i = i + 1;
    }
    proof {
        if i < n {
            assert(s@.take(n - i).last() == s@[n - 1 - i]);
        }
        lemma_tail_chars_within_bound(s@, b as int);
    }
    i
}

} // verus!
