//! Reading whole numbers and the names of months.

use crate::text::{same_text, to_chars};
use vstd::prelude::*;

verus! {

/// The ten decimal digits.
pub open spec fn is_digit(c: char) -> bool {
    '0' <= c <= '9'
}

/// Whether `s` holds decimal digits only.
pub open spec fn all_digits(s: Seq<char>) -> bool {
    forall|i: int| 0 <= i < s.len() ==> is_digit(#[trigger] s[i])
}

/// The number that a sequence of decimal digits denotes.
pub open spec fn decimal_value(s: Seq<char>) -> int
    decreases s.len(),
{
    if s.len() == 0 {
        0
    } else {
        decimal_value(s.drop_last()) * 10 + (s.last() as int - '0' as int)
    }
}

/// The number that `s` denotes as a 32-bit integer: an optional sign, `+` or
/// `-`, and after it at least one decimal digit and nothing else. There is none
/// where the text has another form or the number does not fit.
pub open spec fn parsed_i32(s: Seq<char>) -> Option<i32> {
    let signed = s.len() > 0 && (s[0] == '-' || s[0] == '+');
    let digits = if signed {
        s.skip(1)
    } else {
        s
    };
    let value = if s.len() > 0 && s[0] == '-' {
        -decimal_value(digits)
    } else {
        decimal_value(digits)
    };
    if digits.len() > 0 && all_digits(digits) && i32::MIN <= value <= i32::MAX {
        Some(value as i32)
    } else {
        None
    }
}

/// A sequence of digits denotes no less than any of its prefixes, and never a
/// negative number.
pub proof fn lemma_decimal_value_grows(s: Seq<char>, k: int)
    requires
        all_digits(s),
        0 <= k <= s.len(),
    ensures
        0 <= decimal_value(s.take(k)) <= decimal_value(s),
    decreases s.len() - k,
{
    lemma_decimal_value_not_negative(s.take(k));
    if k < s.len() {
        lemma_decimal_value_grows(s, k + 1);
        assert(s.take(k + 1).drop_last() =~= s.take(k));
        assert(is_digit(s.take(k + 1).last()));
    } else {
        assert(s.take(k) =~= s);
    }
}

/// A sequence of digits never denotes a negative number.
pub proof fn lemma_decimal_value_not_negative(s: Seq<char>)
    requires
        all_digits(s),
    ensures
        0 <= decimal_value(s),
    decreases s.len(),
{
    if s.len() > 0 {
        assert(is_digit(s.last()));
        lemma_decimal_value_not_negative(s.drop_last());
    }
}

/// Reads `s` as a 32-bit integer in decimal notation.
pub fn parse_i32(s: &str) -> (value: Option<i32>)
    ensures
        value == parsed_i32(s@),
{
    let chars = to_chars(s);
    let n = chars.len();
    if n == 0 {
        return None;
    }
    let negative = chars[0] == '-';
    let start: usize = if chars[0] == '-' || chars[0] == '+' {
        1
    } else {
        0
    };
    let ghost digits = chars@.skip(start as int);
    proof {
        assert(chars@.skip(0) =~= chars@);
        assert(digits.take(0) =~= Seq::<char>::empty());
    }
    let mut magnitude: i64 = 0;
    let mut i: usize = start;
    while i < n
        invariant
            chars@ == s@,
            0 < n == chars.len(),
            start == (if s@[0] == '-' || s@[0] == '+' {
                1usize
            } else {
                0usize
            }),
            start <= i <= n,
            digits == chars@.skip(start as int),
            start == 0 ==> digits == s@,
            all_digits(digits.take(i - start)),
            magnitude == decimal_value(digits.take(i - start)),
            0 <= magnitude <= 2147483648,
        decreases n - i,
    {
        let c = chars[i];
        proof {
            assert(digits[i - start] == c);
            assert(digits.take(i - start + 1).drop_last() =~= digits.take(i - start));
            assert(digits.take(i - start + 1).last() == c);
        }
        if c < '0' || c > '9' {
            proof {
                assert(!is_digit(digits[i - start]));
            }
            return None;
        }
        let digit: i64 = (c as u32 - '0' as u32) as i64;
        magnitude = magnitude * 10 + digit;
        proof {
            let taken = digits.take(i - start + 1);
            assert forall|j: int| 0 <= j < taken.len() implies is_digit(#[trigger] taken[j]) by {
                if j < i - start {
                    assert(taken[j] == digits.take(i - start)[j]);
                }
            }
        }
        if magnitude > 2147483648 {
            proof {
                if all_digits(digits) {
                    lemma_decimal_value_grows(digits, i - start + 1);
                }
            }
            return None;
        }
        i = i + 1;
    }
    proof {
        assert(digits.take(n - start) =~= digits);
    }
    if i == start {
        None
    } else if negative {
        Some((-magnitude) as i32)
    } else if magnitude > 2147483647 {
        None
    } else {
        Some(magnitude as i32)
    }
}

/// The number of the month that `s` names in full, in English and with a
/// capital first letter; none for any other text.
pub open spec fn month_number(s: Seq<char>) -> Option<usize> {
    if s == "January"@ {
        Some(1usize)
    } else if s == "February"@ {
        Some(2usize)
    } else if s == "March"@ {
        Some(3usize)
    } else if s == "April"@ {
        Some(4usize)
    } else if s == "May"@ {
        Some(5usize)
    } else if s == "June"@ {
        Some(6usize)
    } else if s == "July"@ {
        Some(7usize)
    } else if s == "August"@ {
        Some(8usize)
    } else if s == "September"@ {
        Some(9usize)
    } else if s == "October"@ {
        Some(10usize)
    } else if s == "November"@ {
        Some(11usize)
    } else if s == "December"@ {
        Some(12usize)
    } else {
        None
    }
}

/// Looks up the number of the month that `s` names.
pub fn month_of(s: &str) -> (number: Option<usize>)
    ensures
        number == month_number(s@),
{
    if same_text(s, "January") {
        Some(1)
    } else if same_text(s, "February") {
        Some(2)
    } else if same_text(s, "March") {
        Some(3)
    } else if same_text(s, "April") {
        Some(4)
    } else if same_text(s, "May") {
        Some(5)
    } else if same_text(s, "June") {
        Some(6)
    } else if same_text(s, "July") {
        Some(7)
    } else if same_text(s, "August") {
        Some(8)
    } else if same_text(s, "September") {
        Some(9)
    } else if same_text(s, "October") {
        Some(10)
    } else if same_text(s, "November") {
        Some(11)
    } else if same_text(s, "December") {
        Some(12)
    } else {
        None
    }
}

} // verus!
