//! Reading and writing the few kinds of text this crate deals in: a number on a
//! command line, a number written out in decimal or in hex, and one word
//! compared against another.

use vstd::prelude::*;

verus! {

/// Whether `c` is one of the ten ASCII digits.
pub open spec fn is_digit(c: char) -> bool {
    '0' <= c && c <= '9'
}

/// What digit `c` stands for.
pub open spec fn digit_value(c: char) -> int {
    c as int - '0' as int
}

/// Whether every character of `s` is a digit.
pub open spec fn all_digits(s: Seq<char>) -> bool {
    forall|i: int| 0 <= i < s.len() ==> is_digit(#[trigger] s[i])
}

/// The number a run of digits spells, most significant first.
pub open spec fn digits_value(s: Seq<char>) -> int
    decreases s.len(),
{
    if s.len() == 0 {
        0
    } else {
        digits_value(s.drop_last()) * 10 + digit_value(s.last())
    }
}

/// What a command line's count reads as: an optional `+`, then one digit or
/// more, and no larger than `max`. Anything else is not a number.
pub open spec fn spec_number(s: Seq<char>, max: int) -> Option<int> {
    let digits = if s.len() > 0 && s[0] == '+' { s.drop_first() } else { s };
    if digits.len() > 0 && all_digits(digits) && digits_value(digits) <= max {
        Some(digits_value(digits))
    } else {
        None
    }
}

/// The character for a digit below ten.
pub open spec fn digit_char(d: int) -> char {
    if d == 0 { '0' }
    else if d == 1 { '1' }
    else if d == 2 { '2' }
    else if d == 3 { '3' }
    else if d == 4 { '4' }
    else if d == 5 { '5' }
    else if d == 6 { '6' }
    else if d == 7 { '7' }
    else if d == 8 { '8' }
    else { '9' }
}

/// `n` in decimal, with no leading zeros, and `0` for nought.
pub open spec fn spec_decimal(n: nat) -> Seq<char>
    decreases n,
{
    if n < 10 {
        seq![digit_char(n as int)]
    } else {
        spec_decimal(n / 10).push(digit_char((n % 10) as int))
    }
}

/// The lower-case character for a hex digit below sixteen.
pub open spec fn hex_char(d: int) -> char {
    if d < 10 { digit_char(d) }
    else if d == 10 { 'a' }
    else if d == 11 { 'b' }
    else if d == 12 { 'c' }
    else if d == 13 { 'd' }
    else if d == 14 { 'e' }
    else { 'f' }
}

/// The last `count` hex digits of `n`, most significant first, zero-padded.
pub open spec fn spec_hex_digits(n: nat, count: nat) -> Seq<char>
    decreases count,
{
    if count == 0 {
        Seq::empty()
    } else {
        spec_hex_digits(n / 16, (count - 1) as nat).push(hex_char((n % 16) as int))
    }
}

/// `n` as `0x` and sixteen lower-case hex digits: the whole of a 64-bit digest,
/// padded so that every one is the same width.
pub open spec fn spec_hex64(n: u64) -> Seq<char> {
    seq!['0', 'x'] + spec_hex_digits(n as nat, 16)
}

/// std's `String::push`, which appends one character.
#[verifier::external_body]
pub(crate) fn push_char(s: &mut String, c: char)
    ensures
        final(s)@ == old(s)@.push(c),
{
    s.push(c);
}

/// Whether two texts are the same characters in the same order.
pub fn same(a: &str, b: &str) -> (r: bool)
    ensures
        r == (a@ == b@),
{
    let n = a.unicode_len();
    let m = b.unicode_len();
    if n != m {
        return false;
    }
    let mut i: usize = 0;
    while i < n
        invariant
            n == a@.len(),
            m == b@.len(),
            n == m,
            i <= n,
            forall|j: int| 0 <= j < i ==> a@[j] == b@[j],
        decreases n - i,
    {
        if a.get_char(i) != b.get_char(i) {
            return false;
        }
        i = i + 1;
    }
    assert(a@ =~= b@);
    true
}

/// The position of the first `c` in `s`, if there is one.
pub fn find(s: &str, c: char) -> (r: Option<usize>)
    ensures
        r matches Some(i) ==> s@.index_of_first(c) == Some(i as int),
        r is None ==> s@.index_of_first(c) is None,
{
    let n = s.unicode_len();
    let mut i: usize = 0;
    while i < n
        invariant
            n == s@.len(),
            i <= n,
            forall|j: int| 0 <= j < i ==> s@[j] != c,
        decreases n - i,
    {
        if s.get_char(i) == c {
            proof {
                s@.index_of_first_ensures(c);
                let found = s@.index_of_first(c);
                assert(s@.contains(c));
                if found.unwrap() > i {
                    assert(s@[i as int] != c);
                }
            }
            return Some(i);
        }
        i = i + 1;
    }
    proof {
        s@.index_of_first_ensures(c);
        if s@.contains(c) {
            let k = choose|k: int| 0 <= k < s@.len() && s@[k] == c;
            assert(s@[k] != c);
        }
    }
    None
}

/// A prefix of a run of digits spells no more than the whole of it.
proof fn lemma_digits_prefix(s: Seq<char>, k: int)
    requires
        0 <= k <= s.len(),
        all_digits(s),
    ensures
        digits_value(s.subrange(0, k)) <= digits_value(s),
        0 <= digits_value(s.subrange(0, k)),
    decreases s.len() - k,
{
    if k == s.len() {
        assert(s.subrange(0, k) =~= s);
        lemma_digits_nonnegative(s);
    } else {
        lemma_digits_prefix(s, k + 1);
        let longer = s.subrange(0, k + 1);
        assert(longer.drop_last() =~= s.subrange(0, k));
        assert(is_digit(longer.last()));
        lemma_digits_nonnegative(s.subrange(0, k));
    }
}

/// A run of digits spells a number no smaller than nought.
proof fn lemma_digits_nonnegative(s: Seq<char>)
    requires
        all_digits(s),
    ensures
        digits_value(s) >= 0,
    decreases s.len(),
{
    if s.len() > 0 {
        assert(all_digits(s.drop_last()));
        lemma_digits_nonnegative(s.drop_last());
        assert(is_digit(s.last()));
    }
}

/// Reads a count off a command line: an optional `+`, then digits, and no
/// larger than `max`. This is what the standard library's parse of an unsigned
/// integer accepts.
pub fn parse_number(s: &str, max: u64) -> (r: Option<u64>)
    ensures
        r matches Some(v) ==> spec_number(s@, max as int) == Some(v as int),
        r is None ==> spec_number(s@, max as int) is None,
{
    let n = s.unicode_len();
    let mut start: usize = 0;
    if n > 0 && s.get_char(0) == '+' {
        start = 1;
    }
    let ghost digits = if s@.len() > 0 && s@[0] == '+' { s@.drop_first() } else { s@ };
    assert(digits =~= s@.subrange(start as int, n as int));
    if start == n {
        return None;
    }
    let mut value: u64 = 0;
    let mut i: usize = start;
    while i < n
        invariant
            n == s@.len(),
            start <= i <= n,
            start < n,
            digits == (if s@.len() > 0 && s@[0] == '+' { s@.drop_first() } else { s@ }),
            digits =~= s@.subrange(start as int, n as int),
            all_digits(s@.subrange(start as int, i as int)),
            value as int == digits_value(s@.subrange(start as int, i as int)),
            value <= max,
        decreases n - i,
    {
        let c = s.get_char(i);
        let ghost before = s@.subrange(start as int, i as int);
        let ghost after = s@.subrange(start as int, i + 1);
        assert(after.drop_last() =~= before);
        if !('0' <= c && c <= '9') {
            proof {
                assert(digits[i - start] == c);
                assert(!is_digit(digits[i - start]));
            }
            return None;
        }
        let d = (c as u32 - '0' as u32) as u64;
        assert(digits_value(after) == value * 10 + d);
        if (value as u128) * 10 + (d as u128) > max as u128 {
            proof {
                if all_digits(digits) {
                    lemma_digits_prefix(digits, i + 1 - start);
                    assert(digits.subrange(0, i + 1 - start) =~= after);
                }
            }
            return None;
        }
        value = value * 10 + d;
        i = i + 1;
    }
    assert(s@.subrange(start as int, n as int) =~= digits);
    Some(value)
}

/// Appends `n` in decimal to `out`.
pub fn push_decimal(out: &mut String, n: u64)
    ensures
        final(out)@ == old(out)@ + spec_decimal(n as nat),
    decreases n,
{
    if n >= 10 {
        push_decimal(out, n / 10);
    }
    let d = n % 10;
    let c = if d == 0 { '0' }
        else if d == 1 { '1' }
        else if d == 2 { '2' }
        else if d == 3 { '3' }
        else if d == 4 { '4' }
        else if d == 5 { '5' }
        else if d == 6 { '6' }
        else if d == 7 { '7' }
        else if d == 8 { '8' }
        else { '9' };
    push_char(out, c);
    proof {
        if n >= 10 {
            assert(old(out)@ + spec_decimal(n as nat) =~= old(out)@ + spec_decimal((n / 10) as nat) + seq![c]);
        } else {
            assert(old(out)@ + spec_decimal(n as nat) =~= old(out)@.push(c));
        }
    }
}

/// `n` in decimal.
pub fn decimal(n: u64) -> (r: String)
    ensures
        r@ == spec_decimal(n as nat),
{
    let mut out = String::new();
    push_decimal(&mut out, n);
    assert(out@ =~= spec_decimal(n as nat));
    out
}

/// The character for a hex digit below sixteen.
fn hex_digit(d: u64) -> (c: char)
    requires
        d < 16,
    ensures
        c == hex_char(d as int),
{
    if d == 0 { '0' }
    else if d == 1 { '1' }
    else if d == 2 { '2' }
    else if d == 3 { '3' }
    else if d == 4 { '4' }
    else if d == 5 { '5' }
    else if d == 6 { '6' }
    else if d == 7 { '7' }
    else if d == 8 { '8' }
    else if d == 9 { '9' }
    else if d == 10 { 'a' }
    else if d == 11 { 'b' }
    else if d == 12 { 'c' }
    else if d == 13 { 'd' }
    else if d == 14 { 'e' }
    else { 'f' }
}

/// Appends the last `count` hex digits of `n`, zero-padded.
fn push_hex_digits(out: &mut String, n: u64, count: u64)
    ensures
        final(out)@ == old(out)@ + spec_hex_digits(n as nat, count as nat),
    decreases count,
{
    if count == 0 {
        assert(old(out)@ + spec_hex_digits(n as nat, 0) =~= old(out)@);
        return;
    }
    push_hex_digits(out, n / 16, count - 1);
    push_char(out, hex_digit(n % 16));
    assert(old(out)@ + spec_hex_digits(n as nat, count as nat) =~= old(out)@ + spec_hex_digits(
        (n / 16) as nat,
        (count - 1) as nat,
    ) + seq![hex_char((n % 16) as int)]);
}

/// Appends `n` as `0x` and sixteen lower-case hex digits.
pub fn push_hex64(out: &mut String, n: u64)
    ensures
        final(out)@ == old(out)@ + spec_hex64(n),
{
    push_char(out, '0');
    push_char(out, 'x');
    push_hex_digits(out, n, 16);
    assert(out@ =~= old(out)@ + spec_hex64(n));
}

/// `n` as `0x` and sixteen lower-case hex digits.
pub fn hex64(n: u64) -> (r: String)
    ensures
        r@ == spec_hex64(n),
{
    let mut out = String::new();
    push_hex64(&mut out, n);
    assert(out@ =~= spec_hex64(n));
    out
}

} // verus!
