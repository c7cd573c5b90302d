//! Unsigned decimal numbers as text.
//!
//! The text of an unsigned integer is an optional `+` followed by one or
//! more ASCII digits; leading zeros are allowed. Its canonical text has no
//! sign and no leading zero.

use super::chars::{digit, is_digit};
use vstd::prelude::*;

verus! {

/// The number that the digit `c` stands for.
pub open spec fn digit_value(c: char) -> nat
    recommends
        is_digit(c),
{
    (c as int - '0' as int) as nat
}

/// The digit that stands for `d`.
pub open spec fn digit_char(d: nat) -> char
    recommends
        d < 10,
{
    ('0' as int + d) as char
}

/// Every character of `s` is an ASCII digit.
pub open spec fn all_digits(s: Seq<char>) -> bool {
    forall|i: int| 0 <= i < s.len() ==> is_digit(#[trigger] s[i])
}

/// The number that a string of digits denotes in base ten.
pub open spec fn digits_value(s: Seq<char>) -> nat
    decreases s.len(),
{
    if s.len() == 0 {
        0
    } else {
        10 * digits_value(s.drop_last()) + digit_value(s.last())
    }
}

/// `s` without its leading `+`, if it has one.
pub open spec fn unsigned_digits(s: Seq<char>) -> Seq<char> {
    if s.len() > 0 && s[0] == '+' {
        s.drop_first()
    } else {
        s
    }
}

/// `s` is the text of an unsigned integer: an optional `+`, then at least
/// one digit and nothing but digits.
pub open spec fn is_unsigned(s: Seq<char>) -> bool {
    unsigned_digits(s).len() > 0 && all_digits(unsigned_digits(s))
}

/// The number that the text of an unsigned integer denotes.
pub open spec fn unsigned_value(s: Seq<char>) -> nat
    recommends
        is_unsigned(s),
{
    digits_value(unsigned_digits(s))
}

/// `s` is the text of an unsigned integer no larger than `max`.
pub open spec fn parses_within(s: Seq<char>, max: nat) -> bool {
    is_unsigned(s) && unsigned_value(s) <= max
}

/// The canonical text of `n`: its digits, most significant first.
pub open spec fn decimal(n: nat) -> Seq<char>
    decreases n,
{
    if n < 10 {
        seq![digit_char(n)]
    } else {
        decimal(n / 10).push(digit_char(n % 10))
    }
}

/// A string of digits denotes at least what any of its prefixes denotes.
pub proof fn lemma_digits_value_prefix(s: Seq<char>, k: int)
    requires
        0 <= k <= s.len(),
    ensures
        digits_value(s.take(k)) <= digits_value(s),
    decreases s.len() - k,
{
    if k == s.len() {
        assert(s.take(k) =~= s);
    } else {
        lemma_digits_value_prefix(s.drop_last(), k);
        assert(s.drop_last().take(k) =~= s.take(k));
    }
}

/// The canonical text of a number is unsigned text that denotes it.
pub proof fn lemma_decimal_round_trip(n: nat)
    ensures
        decimal(n).len() > 0,
        all_digits(decimal(n)),
        unsigned_digits(decimal(n)) == decimal(n),
        is_unsigned(decimal(n)),
        unsigned_value(decimal(n)) == n,
    decreases n,
{
    if n < 10 {
        assert(digits_value(decimal(n)) == n) by {
            reveal_with_fuel(digits_value, 2);
        }
    } else {
        lemma_decimal_round_trip(n / 10);
        assert(decimal(n).drop_last() =~= decimal(n / 10));
    }
}

/// Reads `text` as an unsigned integer no larger than `max`.
///
/// Returns the number if `text` is such text, and `None` otherwise: when
/// `text` is empty or a lone `+`, holds anything but digits after the
/// optional sign, or denotes a number above `max`.
pub fn parse_unsigned(text: &[char], max: u64) -> (r: Option<u64>)
    ensures
        match r {
            Some(v) => parses_within(text@, max as nat) && v == unsigned_value(text@),
            None => !parses_within(text@, max as nat),
        },
{
    let n: usize = text.len();
    let start: usize = if n > 0 && text[0] == '+' {
        1
    } else {
        0
    };
    if start == n {
        return None;
    }
    let ghost digits = unsigned_digits(text@);
    let mut value: u64 = 0;
    let mut i: usize = start;
    while i < n
        invariant
            start <= i <= n,
            n == text@.len(),
            digits == unsigned_digits(text@),
            digits == text@.subrange(start as int, n as int),
            all_digits(digits.take(i - start)),
            value == digits_value(digits.take(i - start)),
            value <= max,
        decreases n - i,
    {
        let c: char = text[i];
        let ghost next = digits.take(i + 1 - start);
        assert(next.drop_last() =~= digits.take(i - start));
        assert(next.last() == c);
        if !digit(c) {
            return None;
        }
        let d: u64 = (c as u32 - '0' as u32) as u64;
        let grown: Option<u64> = match value.checked_mul(10) {
            Some(tens) => tens.checked_add(d),
            None => None,
        };
        match grown {
            Some(v) if v <= max => {
                value = v;
            },
            _ => {
                proof {
                    lemma_digits_value_prefix(digits, i + 1 - start);
                }
                return None;
            },
        }
        i = i + 1;
    }
    assert(digits.take(n - start) =~= digits);
    Some(value)
}

/// The text of one digit.
fn digit_text(d: u64) -> (s: &'static str)
    requires
        d < 10,
    ensures
        s@ == seq![digit_char(d as nat)],
{
    proof {
        reveal_strlit("0");
        reveal_strlit("1");
        reveal_strlit("2");
        reveal_strlit("3");
        reveal_strlit("4");
        reveal_strlit("5");
        reveal_strlit("6");
        reveal_strlit("7");
        reveal_strlit("8");
        reveal_strlit("9");
    }
    match d {
        0 => "0",
        1 => "1",
        2 => "2",
        3 => "3",
        4 => "4",
        5 => "5",
        6 => "6",
        7 => "7",
        8 => "8",
        _ => "9",
    }
}

/// Appends the canonical text of `n` to `out`.
pub fn push_decimal(out: &mut String, n: u64)
    ensures
        final(out)@ == old(out)@ + decimal(n as nat),
    decreases n,
{
    if n >= 10 {
        push_decimal(out, n / 10);
    }
    out.append(digit_text(n % 10));
}

} // verus!
