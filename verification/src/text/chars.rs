//! ASCII character classes, and strings as vectors of characters.

use vstd::prelude::*;

verus! {

/// `c` is one of `a`–`z` or `A`–`Z`.
pub open spec fn is_letter(c: char) -> bool {
    ('a' <= c && c <= 'z') || ('A' <= c && c <= 'Z')
}

/// `c` is one of `0`–`9`.
pub open spec fn is_digit(c: char) -> bool {
    '0' <= c && c <= '9'
}

/// `c` is an ASCII letter or an ASCII digit.
pub open spec fn is_alphanumeric(c: char) -> bool {
    is_letter(c) || is_digit(c)
}

/// Executable test for [`is_letter`].
pub fn letter(c: char) -> (b: bool)
    ensures
        b == is_letter(c),
{
    (c >= 'a' && c <= 'z') || (c >= 'A' && c <= 'Z')
}

/// Executable test for [`is_digit`].
pub fn digit(c: char) -> (b: bool)
    ensures
        b == is_digit(c),
{
    c >= '0' && c <= '9'
}

/// Executable test for [`is_alphanumeric`].
pub fn alphanumeric(c: char) -> (b: bool)
    ensures
        b == is_alphanumeric(c),
{
    letter(c) || digit(c)
}

/// The characters of `s`, in order.
pub fn to_chars(s: &str) -> (v: Vec<char>)
    ensures
        v@ == s@,
{
    let mut v: Vec<char> = Vec::new();
    for c in it: s.chars()
        invariant
            it.seq() == s@,
            v@ == it.seq().take(it.index() as int),
    {
        v.push(c);
    }
    v
}

} // verus!
