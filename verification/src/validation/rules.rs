//! Rules on plain text that several validators share.

use crate::text::chars::to_chars;
use crate::text::decimal::{parse_unsigned, parses_within, unsigned_digits};
use crate::text::split::{
    free_of, join, lemma_split_is_sound, lemma_split_of_join, split, split_bounds,
};
use vstd::prelude::*;
use vstd::slice::slice_subrange;

verus! {

/// `s` is the text of an unsigned integer in the range 0–255.
///
/// As everywhere in this library, such text may carry a leading `+` and
/// leading zeros: `7`, `007` and `+7` are all octets.
pub open spec fn is_octet(s: Seq<char>) -> bool {
    parses_within(s, 255)
}

/// Every one of `parts` is an octet.
pub open spec fn all_octets(parts: Seq<Seq<char>>) -> bool {
    forall|k: int| 0 <= k < parts.len() ==> is_octet(#[trigger] parts[k])
}

/// `s` is a dotted quad: exactly four octets, separated by `.`.
pub open spec fn is_ipv4_address(s: Seq<char>) -> bool {
    split(s, '.').len() == 4 && all_octets(split(s, '.'))
}

/// The first of `parts` that is not an octet.
pub open spec fn first_bad_octet(parts: Seq<Seq<char>>) -> Seq<char>
    recommends
        !all_octets(parts),
    decreases parts.len(),
{
    if parts.len() == 0 {
        Seq::empty()
    } else if !is_octet(parts.first()) {
        parts.first()
    } else {
        first_bad_octet(parts.drop_first())
    }
}

/// Why `s` is not a dotted quad: it has another number of parts than four,
/// or else one of its parts is not an octet, and the first such part is
/// named.
pub open spec fn ip_address_fault(s: Seq<char>) -> Seq<char>
    recommends
        !is_ipv4_address(s),
{
    if split(s, '.').len() != 4 {
        "IP address must have exactly 4 octets"@
    } else {
        "Invalid octet: "@ + first_bad_octet(split(s, '.'))
    }
}

/// The part at `k` is the first bad octet when it is not an octet and all
/// parts before it are.
pub proof fn lemma_first_bad_octet(parts: Seq<Seq<char>>, k: int)
    requires
        0 <= k < parts.len(),
        !is_octet(parts[k]),
        forall|j: int| 0 <= j < k ==> is_octet(#[trigger] parts[j]),
    ensures
        first_bad_octet(parts) == parts[k],
    decreases k,
{
    if k > 0 {
        lemma_first_bad_octet(parts.drop_first(), k - 1);
    }
}

/// An octet holds no `.`.
pub proof fn lemma_octet_has_no_dot(s: Seq<char>)
    requires
        is_octet(s),
    ensures
        free_of(s, '.'),
{
    let digits = unsigned_digits(s);
    assert forall|i: int| 0 <= i < s.len() implies #[trigger] s[i] != '.' by {
        if digits.len() < s.len() && i > 0 {
            assert(digits[i - 1] == s[i]);
        }
    }
}

/// Text made of parts with `.` between them is a dotted quad exactly when
/// there are four parts and each is an octet. Any other number of parts,
/// and any part that is not a number or lies outside 0–255, make it
/// invalid.
pub proof fn lemma_ipv4_of_parts(parts: Seq<Seq<char>>)
    requires
        parts.len() >= 1,
        forall|k: int| 0 <= k < parts.len() ==> free_of(#[trigger] parts[k], '.'),
    ensures
        is_ipv4_address(join(parts, '.')) <==> parts.len() == 4 && all_octets(parts),
{
    lemma_split_of_join(parts, '.');
}

/// Four octets with `.` between them form a dotted quad.
pub proof fn lemma_dotted_quad(a: Seq<char>, b: Seq<char>, c: Seq<char>, d: Seq<char>)
    requires
        is_octet(a),
        is_octet(b),
        is_octet(c),
        is_octet(d),
    ensures
        is_ipv4_address(a + seq!['.'] + b + seq!['.'] + c + seq!['.'] + d),
{
    let parts = seq![a, b, c, d];
    lemma_octet_has_no_dot(a);
    lemma_octet_has_no_dot(b);
    lemma_octet_has_no_dot(c);
    lemma_octet_has_no_dot(d);
    lemma_ipv4_of_parts(parts);
    reveal_with_fuel(join, 4);
    assert(join(parts, '.') =~= a + seq!['.'] + b + seq!['.'] + c + seq!['.'] + d);
}

/// A dotted quad is its four octets with `.` between them.
pub proof fn lemma_ipv4_is_dotted_quad(s: Seq<char>)
    requires
        is_ipv4_address(s),
    ensures
        ({
            let parts = split(s, '.');
            &&& is_octet(parts[0]) && is_octet(parts[1]) && is_octet(parts[2]) && is_octet(parts[3])
            &&& s == parts[0] + seq!['.'] + parts[1] + seq!['.'] + parts[2] + seq!['.'] + parts[3]
        }),
{
    lemma_split_is_sound(s, '.');
    reveal_with_fuel(join, 4);
}

/// Checks that `ip` is a dotted-quad IPv4 address.
///
/// Returns `Ok` exactly for a dotted quad. Otherwise the error is the
/// reason: that the text does not have four parts, or else the first part
/// that is not a number in the range 0–255.
pub fn validate_ip_address(ip: &str) -> (r: Result<(), String>)
    ensures
        match r {
            Ok(_) => is_ipv4_address(ip@),
            Err(reason) => !is_ipv4_address(ip@) && reason@ == ip_address_fault(ip@),
        },
{
    let chars: Vec<char> = to_chars(ip);
    let bounds: Vec<(usize, usize)> = split_bounds(chars.as_slice(), '.');
    if bounds.len() != 4 {
        return Err("IP address must have exactly 4 octets".to_string());
    }
    let ghost parts = split(ip@, '.');
    let mut k: usize = 0;
    while k < 4
        invariant
            k <= 4,
            chars@ == ip@,
            parts == split(ip@, '.'),
            parts.len() == 4,
            bounds@.len() == 4,
            forall|j: int|
                0 <= j < 4 ==> {
                    &&& (#[trigger] bounds@[j]).0 <= bounds@[j].1 <= chars@.len()
                    &&& chars@.subrange(bounds@[j].0 as int, bounds@[j].1 as int) == parts[j]
                },
            forall|j: int| 0 <= j < k ==> is_octet(#[trigger] parts[j]),
        decreases 4 - k,
    {
        let from: usize = bounds[k].0;
        let to: usize = bounds[k].1;
        let part: &[char] = slice_subrange(chars.as_slice(), from, to);
        if parse_unsigned(part, 255).is_none() {
            let mut reason: String = "Invalid octet: ".to_string();
            reason.append(ip.substring_char(from, to));
            proof {
                lemma_first_bad_octet(parts, k as int);
            }
            return Err(reason);
        }
        k = k + 1;
    }
    Ok(())
}

} // verus!
