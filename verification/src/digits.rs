//! Decimal notation: writing an unsigned integer and reading a small one.

use vstd::prelude::*;
use crate::text::chars_of;

verus! {

/// The character that stands for the digit `d`.
pub open spec fn digit_char(d: nat) -> char
    recommends
        d < 10,
{
    (48 + d) as u8 as char
}

/// `n` in decimal notation, without leading zeros.
pub open spec fn decimal(n: nat) -> Seq<char>
    decreases n,
{
    if n < 10 {
        seq![digit_char(n)]
    } else {
        decimal(n / 10).push(digit_char(n % 10))
    }
}

/// Appends `n` in decimal notation to `out`.
pub fn push_decimal(out: &mut Vec<char>, n: u64)
    ensures
        final(out)@ == old(out)@ + decimal(n as nat),
    decreases n,
{
    if n >= 10 {
        push_decimal(out, n / 10);
    }
    let d: u8 = (n % 10) as u8;
    out.push((48 + d) as char);
}

/// Whether `c` is one of the ten ASCII digits.
pub open spec fn is_digit(c: char) -> bool {
    '0' <= c <= '9'
}

/// A number in decimal notation is digits throughout.
pub proof fn lemma_decimal_is_digits(n: nat)
    ensures
        decimal(n).len() > 0,
        forall|i: int| 0 <= i < decimal(n).len() ==> is_digit(#[trigger] decimal(n)[i]),
    decreases n,
{
    if n >= 10 {
        lemma_decimal_is_digits(n / 10);
    }
}

/// The number that the digits of `s` denote in decimal notation; leading
/// zeros count for nothing.
pub open spec fn digits_value(s: Seq<char>) -> nat
    decreases s.len(),
{
    if s.len() == 0 {
        0
    } else {
        digits_value(s.drop_last()) * 10 + ((s.last() as u32) - 48) as nat
    }
}

/// Whether `s` is one digit or more and nothing else.
pub open spec fn is_number(s: Seq<char>) -> bool {
    s.len() > 0 && forall|i: int| 0 <= i < s.len() ==> is_digit(#[trigger] s[i])
}

/// The unsigned 8-bit integer that `s` denotes: an optional plus sign, then
/// digits whose value is at most 255. Anything else denotes none.
pub open spec fn small_uint(s: Seq<char>) -> Option<u8> {
    let body = if s.len() > 0 && s.first() == '+' {
        s.drop_first()
    } else {
        s
    };
    if is_number(body) && digits_value(body) <= 255 {
        Some(digits_value(body) as u8)
    } else {
        None
    }
}

/// A number only grows as digits are appended to it.
pub proof fn lemma_digits_value_grows(s: Seq<char>, k: int)
    requires
        0 <= k <= s.len(),
        forall|i: int| 0 <= i < s.len() ==> is_digit(#[trigger] s[i]),
    ensures
        digits_value(s.take(k)) <= digits_value(s),
    decreases s.len() - k,
{
    if k == s.len() {
        assert(s.take(k) =~= s);
    } else {
        lemma_digits_value_grows(s, k + 1);
        assert(s.take(k + 1).drop_last() =~= s.take(k));
    }
}

/// Reads `s` as an unsigned 8-bit integer (see [`small_uint`]).
pub fn parse_small_uint(s: &str) -> (r: Option<u8>)
    ensures
        r == small_uint(s@),
{
    let v = chars_of(s);
    let n = v.len();
    let first: usize = if n > 0 && v[0] == '+' {
        1
    } else {
        0
    };
    let ghost body = v@.subrange(first as int, n as int);
    assert(body =~= if first == 1 {
        s@.drop_first()
    } else {
        s@
    });
    if first == n {
        return None;
    }
    let mut acc: u32 = 0;
    let mut i: usize = first;
    while i < n
        invariant
            first <= i <= n == v.len(),
            body == v@.subrange(first as int, n as int),
            small_uint(s@) == if is_number(body) && digits_value(body) <= 255 {
                Some(digits_value(body) as u8)
            } else {
                None
            },
            forall|k: int| 0 <= k < i - first ==> is_digit(#[trigger] body[k]),
            acc == digits_value(body.take(i - first)),
            acc <= 255,
        decreases n - i,
    {
        let c = v[i];
        assert(c == body[i - first]);
        if !('0' <= c && c <= '9') {
            return None;
        }
        let d: u32 = (c as u32) - 48;
        assert(body.take(i - first + 1).drop_last() =~= body.take(i - first));
        if acc * 10 + d > 255 {
            proof {
                if is_number(body) {
                    lemma_digits_value_grows(body, i - first + 1);
                }
            }
            return None;
        }
        acc = acc * 10 + d;
        i = i + 1;
    }
    assert(body.take(n - first) =~= body);
    Some(acc as u8)
}

} // verus!
