//! Decimal text of integers, as std reads and writes it.
use vstd::prelude::*;

verus! {

pub open spec fn is_digit(c: char) -> bool {
    '0' <= c && c <= '9'
}

/// A non-empty run of ASCII decimal digits.
pub open spec fn all_digits(s: Seq<char>) -> bool {
    s.len() > 0 && forall|i: int| 0 <= i < s.len() ==> is_digit(#[trigger] s[i])
}

/// The value of a run of decimal digits.
pub open spec fn digits_value(s: Seq<char>) -> int
    decreases s.len(),
{
    if s.len() == 0 {
        0
    } else {
        digits_value(s.drop_last()) * 10 + (s.last() as int - '0' as int)
    }
}

/// The value written by an optional sign followed by decimal digits.
pub open spec fn decimal_value(s: Seq<char>) -> Option<int> {
    if s.len() > 0 && s[0] == '-' && all_digits(s.skip(1)) {
        Some(-digits_value(s.skip(1)))
    } else if s.len() > 0 && s[0] == '+' && all_digits(s.skip(1)) {
        Some(digits_value(s.skip(1)))
    } else if all_digits(s) {
        Some(digits_value(s))
    } else {
        None
    }
}

/// The value of `s` as an integer between `lo` and `hi`, if it is one.
pub open spec fn decimal_in_range(s: Seq<char>, lo: int, hi: int) -> Option<int> {
    match decimal_value(s) {
        Some(v) => if lo <= v <= hi {
            Some(v)
        } else {
            None
        },
        None => None,
    }
}

pub open spec fn digit_char(d: int) -> char {
    ((d + 48) as u8) as char
}

/// The shortest decimal digits of a natural number.
pub open spec fn digits_text(n: nat) -> Seq<char>
    decreases n,
{
    if n < 10 {
        seq![digit_char(n as int)]
    } else {
        digits_text(n / 10).push(digit_char((n % 10) as int))
    }
}

/// The decimal text of an integer: a minus sign for negative values, then its digits.
pub open spec fn decimal_text(v: int) -> Seq<char> {
    if v < 0 {
        seq!['-'] + digits_text((-v) as nat)
    } else {
        digits_text(v as nat)
    }
}

#[verifier::external_type_specification]
#[verifier::external_body]
pub struct ExParseIntError(std::num::ParseIntError);

/// Relies on `str::parse::<i64>`: an optional sign, then ASCII digits, within range.
#[verifier::external_body]
pub(crate) fn parse_i64(s: &str) -> (r: Result<i64, std::num::ParseIntError>)
    ensures
        r matches Ok(v) ==> decimal_in_range(s@, i64::MIN as int, i64::MAX as int) == Some(v as int),
        r is Err <==> decimal_in_range(s@, i64::MIN as int, i64::MAX as int) is None,
{
    s.parse::<i64>()
}

/// Relies on `str::parse::<i32>`: an optional sign, then ASCII digits, within range.
#[verifier::external_body]
pub(crate) fn parse_i32(s: &str) -> (r: Result<i32, std::num::ParseIntError>)
    ensures
        r matches Ok(v) ==> decimal_in_range(s@, i32::MIN as int, i32::MAX as int) == Some(v as int),
        r is Err <==> decimal_in_range(s@, i32::MIN as int, i32::MAX as int) is None,
{
    s.parse::<i32>()
}

/// Relies on `i64::to_string`: the decimal text of the value.
#[verifier::external_body]
pub(crate) fn format_i64(v: i64) -> (r: String)
    ensures
        r@ == decimal_text(v as int),
{
    v.to_string()
}

/// Relies on `i32::to_string`: the decimal text of the value.
#[verifier::external_body]
pub(crate) fn format_i32(v: i32) -> (r: String)
    ensures
        r@ == decimal_text(v as int),
{
    v.to_string()
}

} // verus!
