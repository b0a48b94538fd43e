//! What holds of the settings.

use crate::config::{decimal_i64, digits_value};
use vstd::prelude::*;

verus! {

/// Whether a text is made of one or more decimal digits.
pub open spec fn is_digits(text: Seq<char>) -> bool {
    &&& text.len() > 0
    &&& forall|i: int| 0 <= i < text.len() ==> '0' <= #[trigger] text[i] <= '9'
}

/// One digit more makes the number ten times as large, and adds the digit.
pub proof fn law_digit_adds_a_place(digits: Seq<char>, digit: char)
    ensures
        digits_value(digits.push(digit)) == 10 * digits_value(digits) + (digit as int
            - '0' as int),
        digits_value(Seq::empty()) == 0,
{
    assert(digits.push(digit).drop_last() == digits);
}

/// Digits stand for their number if it fits, and for nothing if it does not. A plus before them
/// changes nothing, and a minus gives the negative number.
pub proof fn law_sign_and_digits(digits: Seq<char>)
    requires
        is_digits(digits),
    ensures
        decimal_i64(digits) == if digits_value(digits) <= i64::MAX {
            Some(digits_value(digits))
        } else {
            None
        },
        decimal_i64(seq!['+'] + digits) == decimal_i64(digits),
        decimal_i64(seq!['-'] + digits) == if digits_value(digits) <= i64::MAX + 1 {
            Some(-digits_value(digits))
        } else {
            None
        },
{
    lemma_not_negative(digits);
    assert('0' <= digits[0] <= '9');
    assert((seq!['+'] + digits).drop_first() == digits);
    assert((seq!['-'] + digits).drop_first() == digits);
}

proof fn lemma_not_negative(digits: Seq<char>)
    requires
        forall|i: int| 0 <= i < digits.len() ==> '0' <= #[trigger] digits[i] <= '9',
    ensures
        digits_value(digits) >= 0,
    decreases digits.len(),
{
    if digits.len() > 0 {
        let shorter = digits.drop_last();
        assert forall|i: int| 0 <= i < shorter.len() implies '0' <= #[trigger] shorter[i]
            <= '9' by {
            assert(shorter[i] == digits[i]);
        }
        lemma_not_negative(shorter);
        assert(digits.last() == digits[digits.len() - 1]);
    }
}

} // verus!
