//! Settings from the environment.

use vstd::prelude::*;

verus! {

/// How many activities are sent at once to an instance, where nothing else is set.
pub const DEFAULT_CONCURRENT_SENDS: i64 = 8;

/// The number that decimal digits stand for.
pub open spec fn digits_value(digits: Seq<char>) -> int
    decreases digits.len(),
{
    if digits.len() == 0 {
        0
    } else {
        digits_value(digits.drop_last()) * 10 + (digits.last() as int - '0' as int)
    }
}

/// The number that the text stands for: one or more decimal digits, with or without a sign before
/// them, whose value is in the range of an `i64`.
pub open spec fn decimal_i64(text: Seq<char>) -> Option<int> {
    let signed = text.len() > 0 && (text[0] == '+' || text[0] == '-');
    let digits = if signed {
        text.drop_first()
    } else {
        text
    };
    let value = if signed && text[0] == '-' {
        -digits_value(digits)
    } else {
        digits_value(digits)
    };
    if digits.len() > 0 && (forall|i: int|
        0 <= i < digits.len() ==> '0' <= #[trigger] digits[i] <= '9') && i64::MIN <= value
        <= i64::MAX {
        Some(value)
    } else {
        None
    }
}

/// Parses with `str::parse::<i64>`.
///
/// It gives the number that the text stands for in decimal digits with an optional sign, and fails
/// on any other text, and where the number is out of range.
#[verifier::external_body]
fn parse_i64(text: &str) -> (number: Option<i64>)
    ensures
        number matches Some(n) ==> decimal_i64(text@) == Some(n as int),
        number is None ==> decimal_i64(text@) is None,
{
    text.parse::<i64>().ok()
}

/// How many activities are sent at once to an instance, where the environment sets this text for
/// it.
pub fn concurrent_sends(setting: Option<&str>) -> (sends: i64)
    ensures
        sends == match setting {
            Some(text) => match decimal_i64(text@) {
                Some(number) => number,
                None => DEFAULT_CONCURRENT_SENDS as int,
            },
            None => DEFAULT_CONCURRENT_SENDS as int,
        },
{
    match setting {
        Some(text) => match parse_i64(text) {
            Some(number) => number,
            None => DEFAULT_CONCURRENT_SENDS,
        },
        None => DEFAULT_CONCURRENT_SENDS,
    }
}

} // verus!
