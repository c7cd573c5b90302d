//! A number of bytes, and its text form `<integer><unit>`.
//!
//! The unit is one of `B`, `K`, `M`, `G`, `T` in either case and multiplies
//! the integer by 1024 to the power 0 to 4. Formatting picks the largest
//! unit that the size reaches and drops the remainder, so it is the inverse
//! of parsing only on canonical text: see [`lemma_round_trip`].

use crate::error::{ErrorView, ValidationError};
use crate::text::chars::to_chars;
use crate::text::decimal::{
    decimal, is_unsigned, lemma_decimal_round_trip, parse_unsigned, parses_within, push_decimal,
    unsigned_value,
};
use vstd::arithmetic::div_mod::{lemma_div_by_multiple, lemma_fundamental_div_mod};
use vstd::arithmetic::mul::lemma_mul_is_commutative;
use vstd::arithmetic::power::{lemma_pow_positive, pow};
use vstd::prelude::*;
use vstd::slice::slice_subrange;

verus! {

/// Bytes in a kibibyte.
pub const KIB: u64 = 1024;

/// Bytes in a mebibyte.
pub const MIB: u64 = 1_048_576;

/// Bytes in a gibibyte.
pub const GIB: u64 = 1_073_741_824;

/// Bytes in a tebibyte.
pub const TIB: u64 = 1_099_511_627_776;

/// A number of bytes.
#[derive(Debug, Clone, Copy, PartialEq, Eq, Structural)]
pub struct ByteSize(pub u64);

impl View for ByteSize {
    type V = nat;

    /// The number of bytes.
    open spec fn view(&self) -> nat {
        self.0 as nat
    }
}

/// The power of 1024 that a unit character stands for, in either case.
pub open spec fn unit_exponent(c: char) -> Option<nat> {
    if c == 'B' || c == 'b' {
        Some(0)
    } else if c == 'K' || c == 'k' {
        Some(1)
    } else if c == 'M' || c == 'm' {
        Some(2)
    } else if c == 'G' || c == 'g' {
        Some(3)
    } else if c == 'T' || c == 't' {
        Some(4)
    } else {
        None
    }
}

/// The unit character that formatting writes for a power of 1024.
pub open spec fn unit_suffix(exponent: nat) -> char
    recommends
        exponent <= 4,
{
    if exponent == 0 {
        'B'
    } else if exponent == 1 {
        'K'
    } else if exponent == 2 {
        'M'
    } else if exponent == 3 {
        'G'
    } else {
        'T'
    }
}

/// The number of bytes in one unit: 1024 to the power `exponent`.
pub open spec fn unit_size(exponent: nat) -> nat {
    pow(1024, exponent) as nat
}

/// The largest unit that `bytes` reaches, as a power of 1024.
pub open spec fn unit_of(bytes: nat) -> nat {
    if bytes >= unit_size(4) {
        4
    } else if bytes >= unit_size(3) {
        3
    } else if bytes >= unit_size(2) {
        2
    } else if bytes >= unit_size(1) {
        1
    } else {
        0
    }
}

/// The five unit sizes, written out.
pub proof fn lemma_unit_sizes()
    ensures
        unit_size(0) == 1,
        unit_size(1) == KIB,
        unit_size(2) == MIB,
        unit_size(3) == GIB,
        unit_size(4) == TIB,
{
    reveal_with_fuel(pow, 5);
}

impl ByteSize {
    /// What a text denotes: the number of bytes, or else the reason why it
    /// is not a size.
    ///
    /// The last character is the unit and what stands before it is the
    /// number, an unsigned integer that fits in 64 bits. The checks are made
    /// in the order given here, and the first that fails gives the reason.
    pub open spec fn parse_spec(s: Seq<char>) -> Result<nat, Seq<char>> {
        if s.len() == 0 {
            Err("Empty size"@)
        } else if !parses_within(s.drop_last(), u64::MAX as nat) {
            Err("Invalid number"@)
        } else if unsigned_value(s.drop_last()) == 0 {
            Err("Size must be greater than zero"@)
        } else {
            match unit_exponent(s.last()) {
                None => Err("Unknown suffix"@),
                Some(e) => {
                    if unsigned_value(s.drop_last()) * unit_size(e) > u64::MAX {
                        Err("Size does not fit in 64 bits"@)
                    } else {
                        Ok(unsigned_value(s.drop_last()) * unit_size(e))
                    }
                },
            }
        }
    }

    /// The text of a size: the whole number of its largest unit, then the
    /// unit. What is left over after the division is lost.
    pub open spec fn format_spec(bytes: nat) -> Seq<char> {
        decimal(bytes / unit_size(unit_of(bytes))).push(unit_suffix(unit_of(bytes)))
    }

    /// Reads a size from its text.
    ///
    /// Succeeds exactly on a positive integer followed by a unit whose
    /// product fits in 64 bits, with that product. Every other text gives
    /// `InvalidByteSize`, with the text and the reason.
    pub fn parse(input: &str) -> (r: Result<ByteSize, ValidationError>)
        ensures
            match r {
                Ok(size) => ByteSize::parse_spec(input@) == Ok::<nat, Seq<char>>(size@),
                Err(e) => ByteSize::parse_spec(input@) matches Err(reason) && e@
                    == (ErrorView::InvalidByteSize { input: input@, reason }),
            },
    {
        let chars: Vec<char> = to_chars(input);
        let n: usize = chars.len();
        if n == 0 {
            return Err(invalid(input, "Empty size"));
        }
        let number: &[char] = slice_subrange(chars.as_slice(), 0, n - 1);
        let value: u64 = match parse_unsigned(number, u64::MAX) {
            Some(v) => v,
            None => {
                return Err(invalid(input, "Invalid number"));
            },
        };
        if value == 0 {
            return Err(invalid(input, "Size must be greater than zero"));
        }
        let unit: u64 = match unit_multiplier(chars[n - 1]) {
            Some(u) => u,
            None => {
                return Err(invalid(input, "Unknown suffix"));
            },
        };
        match value.checked_mul(unit) {
            Some(bytes) => Ok(ByteSize(bytes)),
            None => Err(invalid(input, "Size does not fit in 64 bits")),
        }
    }

    /// Writes the size as text, in its largest unit.
    pub fn format(&self) -> (s: String)
        ensures
            s@ == ByteSize::format_spec(self@),
    {
        let bytes: u64 = self.0;
        let (unit, suffix): (u64, &str) = if bytes >= TIB {
            (TIB, "T")
        } else if bytes >= GIB {
            (GIB, "G")
        } else if bytes >= MIB {
            (MIB, "M")
        } else if bytes >= KIB {
            (KIB, "K")
        } else {
            (1, "B")
        };
        proof {
            lemma_unit_sizes();
            reveal_strlit("T");
            reveal_strlit("G");
            reveal_strlit("M");
            reveal_strlit("K");
            reveal_strlit("B");
        }
        let mut s: String = String::new();
        push_decimal(&mut s, bytes / unit);
        s.append(suffix);
        s
    }
}

impl core::str::FromStr for ByteSize {
    type Err = ValidationError;

    /// The same as [`ByteSize::parse`].
    fn from_str(input: &str) -> (r: Result<ByteSize, ValidationError>)
        ensures
            match r {
                Ok(size) => ByteSize::parse_spec(input@) == Ok::<nat, Seq<char>>(size@),
                Err(e) => ByteSize::parse_spec(input@) matches Err(reason) && e@
                    == (ErrorView::InvalidByteSize { input: input@, reason }),
            },
    {
        ByteSize::parse(input)
    }
}

/// Division by a unit undoes multiplication by it, and multiplication by
/// a unit undoes division up to the remainder.
proof fn lemma_unit_arithmetic(n: nat, unit: nat)
    requires
        unit > 0,
    ensures
        n * unit / unit == n,
        n / unit * unit == n - n % unit,
        n % unit < unit,
        n <= n * unit,
        n >= 1 ==> unit <= n * unit,
        n < 1024 <==> n * unit < 1024 * unit,
{
    lemma_div_by_multiple(n as int, unit as int);
    lemma_fundamental_div_mod(n as int, unit as int);
    lemma_mul_is_commutative(unit as int, (n / unit) as int);
    assert(n <= n * unit && (n >= 1 ==> unit <= n * unit) && (n < 1024 <==> n * unit < 1024 * unit))
        by (nonlinear_arith)
        requires
            unit >= 1,
    ;
}

/// A positive integer followed by a unit, in either case, is a size: the
/// integer times the unit's power of 1024, as long as that fits in 64 bits.
pub proof fn lemma_parse_number_with_unit(number: Seq<char>, unit: char, exponent: nat)
    requires
        is_unsigned(number),
        unsigned_value(number) > 0,
        unit_exponent(unit) == Some(exponent),
        unsigned_value(number) * pow(1024, exponent) <= u64::MAX,
    ensures
        ByteSize::parse_spec(number.push(unit)) == Ok::<nat, Seq<char>>(
            (unsigned_value(number) * pow(1024, exponent)) as nat,
        ),
{
    lemma_pow_positive(1024, exponent);
    lemma_unit_arithmetic(unsigned_value(number), unit_size(exponent));
    assert(number.push(unit).drop_last() =~= number);
}

/// The empty text, a text whose number is not an unsigned integer or is
/// zero, and a text whose unit is none of the five are all rejected.
pub proof fn lemma_parse_rejects(number: Seq<char>, unit: char)
    ensures
        ByteSize::parse_spec(Seq::empty()) is Err,
        !is_unsigned(number) ==> ByteSize::parse_spec(number.push(unit)) is Err,
        unsigned_value(number) == 0 ==> ByteSize::parse_spec(number.push(unit)) is Err,
        unit_exponent(unit) is None ==> ByteSize::parse_spec(number.push(unit)) is Err,
{
    assert(number.push(unit).drop_last() =~= number);
}

/// Formatting is lossy: reading the text of a positive size gives the size
/// rounded down to a whole number of its largest unit.
pub proof fn lemma_parse_of_format(bytes: nat)
    requires
        0 < bytes <= u64::MAX,
    ensures
        ByteSize::parse_spec(ByteSize::format_spec(bytes)) == Ok::<nat, Seq<char>>(
            (bytes - bytes % unit_size(unit_of(bytes))) as nat,
        ),
{
    let unit = unit_size(unit_of(bytes));
    let quotient = bytes / unit;
    lemma_unit_sizes();
    lemma_unit_arithmetic(bytes, unit);
    lemma_decimal_round_trip(quotient);
    assert(ByteSize::format_spec(bytes).drop_last() =~= decimal(quotient));
}

/// The text of a size is canonical when its number is written without sign
/// or leading zeros, its unit is in upper case, and the number is below
/// 1024 unless the unit is the largest one.
pub open spec fn is_canonical(s: Seq<char>) -> bool {
    &&& s.len() > 0
    &&& s.drop_last() == decimal(unsigned_value(s.drop_last()))
    &&& unit_exponent(s.last()) matches Some(e)
    &&& s.last() == unit_suffix(e)
    &&& (e == 4 || unsigned_value(s.drop_last()) < 1024)
}

/// Formatting what was read gives the text back exactly when the text is
/// canonical. So `1G` comes back as it is, and `1024M` comes back as `1G`.
pub proof fn lemma_round_trip(s: Seq<char>, bytes: nat)
    requires
        ByteSize::parse_spec(s) == Ok::<nat, Seq<char>>(bytes),
    ensures
        ByteSize::format_spec(bytes) == s <==> is_canonical(s),
{
    let number = s.drop_last();
    let exponent = unit_exponent(s.last())->0;
    let text = ByteSize::format_spec(bytes);
    lemma_unit_sizes();
    lemma_unit_arithmetic(unsigned_value(number), unit_size(exponent));
    assert(s =~= number.push(s.last()));
    assert(text.drop_last() =~= decimal(bytes / unit_size(unit_of(bytes))));
}

/// The number of bytes in the unit that `c` names.
fn unit_multiplier(c: char) -> (m: Option<u64>)
    ensures
        match m {
            Some(size) => unit_exponent(c) matches Some(e) && size == unit_size(e),
            None => unit_exponent(c) is None,
        },
{
    proof {
        lemma_unit_sizes();
    }
    if c == 'B' || c == 'b' {
        Some(1)
    } else if c == 'K' || c == 'k' {
        Some(KIB)
    } else if c == 'M' || c == 'm' {
        Some(MIB)
    } else if c == 'G' || c == 'g' {
        Some(GIB)
    } else if c == 'T' || c == 't' {
        Some(TIB)
    } else {
        None
    }
}

/// The error for a text that is not a size.
fn invalid(input: &str, reason: &str) -> (e: ValidationError)
    ensures
        e@ == (ErrorView::InvalidByteSize { input: input@, reason: reason@ }),
{
    ValidationError::InvalidByteSize { input: input.to_string(), reason: reason.to_string() }
}

} // verus!
