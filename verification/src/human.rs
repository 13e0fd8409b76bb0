//! Quantities with a unit suffix, such as `10K` or `1.5G`: taking one apart into
//! the text of its number and the power of ten that its suffix stands for.

use crate::number::is_digit;
use crate::text::same_text;
use vstd::prelude::*;

verus! {

/// `String::push` of the standard library, which is documented to append the
/// given character to the end of the string. Nothing of this is proved here.
pub assume_specification[ String::push ](text: &mut String, ch: char)
    ensures
        final(text)@ == old(text)@.push(ch),
;

/// The characters that count as part of the number: the decimal digits, the
/// point and the minus sign.
pub open spec fn is_numeric_char(c: char) -> bool {
    is_digit(c) || c == '.' || c == '-'
}

/// The characters of `s` that are part of the number, in their order.
pub open spec fn numeric_part(s: Seq<char>) -> Seq<char> {
    s.filter(|c: char| is_numeric_char(c))
}

/// The characters of `s` that are not part of the number, in their order.
pub open spec fn suffix_part(s: Seq<char>) -> Seq<char> {
    s.filter(|c: char| !is_numeric_char(c))
}

/// The power of ten that a unit suffix stands for: three for `K`, six for `M`,
/// and so on in steps of three up to twenty-four for `Y`. Without a suffix, and
/// with any other text for one, the power is zero.
pub open spec fn suffix_power(suffix: Seq<char>) -> u32 {
    if suffix == "K"@ {
        3
    } else if suffix == "M"@ {
        6
    } else if suffix == "G"@ {
        9
    } else if suffix == "T"@ {
        12
    } else if suffix == "P"@ {
        15
    } else if suffix == "E"@ {
        18
    } else if suffix == "Z"@ {
        21
    } else if suffix == "Y"@ {
        24
    } else {
        0
    }
}

/// Looks up the power of ten that a unit suffix stands for.
pub fn power_of_suffix(suffix: &str) -> (power: u32)
    ensures
        power == suffix_power(suffix@),
{
    if same_text(suffix, "K") {
        3
    } else if same_text(suffix, "M") {
        6
    } else if same_text(suffix, "G") {
        9
    } else if same_text(suffix, "T") {
        12
    } else if same_text(suffix, "P") {
        15
    } else if same_text(suffix, "E") {
        18
    } else if same_text(suffix, "Z") {
        21
    } else if same_text(suffix, "Y") {
        24
    } else {
        0
    }
}

/// The number that the bits of a floating-point value stand for when they are
/// read as a sign and a magnitude: the magnitude for a clear sign bit, and the
/// magnitude negated for a set one.
pub open spec fn signed_magnitude(bits: u64) -> int {
    if bits < 0x8000_0000_0000_0000 {
        bits as int
    } else {
        0x8000_0000_0000_0000 - bits
    }
}

/// The rank of a floating-point value, from its bits.
///
/// Of two values that are numbers, the smaller has the smaller rank, since
/// the bits of such values grow with their magnitudes; and both zeros, the
/// positive and the negative, have rank zero.
pub fn rank_of_bits(bits: u64) -> (rank: i64)
    ensures
        rank == signed_magnitude(bits),
{
    if bits < 0x8000_0000_0000_0000 {
        bits as i64
    } else {
        -((bits - 0x8000_0000_0000_0000) as i64)
    }
}

/// Ranks follow the bits: among values with a clear sign bit the rank grows
/// with the bits, among values with a set sign bit it falls as the bits grow,
/// and no value with a set sign bit has a greater rank than a value with a
/// clear one.
pub proof fn lemma_ranks_follow_bits(a: u64, b: u64)
    requires
        a < b,
    ensures
        b < 0x8000_0000_0000_0000 ==> signed_magnitude(a) < signed_magnitude(b),
        a >= 0x8000_0000_0000_0000 ==> signed_magnitude(a) > signed_magnitude(b),
        a < 0x8000_0000_0000_0000 <= b ==> signed_magnitude(b) <= 0 <= signed_magnitude(a),
        signed_magnitude(0) == 0,
        signed_magnitude(0x8000_0000_0000_0000) == 0,
{
}

/// Takes a quantity apart: the text of its number, which is made of its
/// digits, points and minus signs, and the power of ten that the rest of its
/// characters stands for as a unit suffix.
///
/// The number itself is left to the caller to read, in floating point; a text
/// that reads as no number counts as zero there.
pub fn parse_human_numeric(s: &str) -> (parts: (String, u32))
    ensures
        parts.0@ == numeric_part(s@),
        parts.1 == suffix_power(suffix_part(s@)),
{
    let mut number = String::new();
    let mut suffix = String::new();
    proof {
        reveal(Seq::filter);
        assert(s@.take(0) =~= Seq::<char>::empty());
    }
    for c in it: s.chars()
        invariant
            it.seq() == s@,
            number@ == numeric_part(s@.take(it.index() as int)),
            suffix@ == suffix_part(s@.take(it.index() as int)),
    {
        proof {
            reveal(Seq::filter);
            let k = it.index() as int;
            assert(s@.take(k + 1).drop_last() =~= s@.take(k));
            assert(s@.take(k + 1).last() == c);
        }
        if ('0' <= c && c <= '9') || c == '.' || c == '-' {
            number.push(c);
        } else {
            suffix.push(c);
        }
    }
    proof {
        assert(s@.take(s@.len() as int) =~= s@);
    }
    let power = power_of_suffix(suffix.as_str());
    (number, power)
}

} // verus!
