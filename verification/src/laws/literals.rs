//! Laws of single literals.

use crate::error::ParseFailure;
use crate::text::{decimal_digit, white_space};
use crate::token::{decimal_value, digits_end, token_nanos, token_outcome, token_parts};
use crate::units::unit_named;
use vstd::prelude::*;

verus! {

/// The sign that leads a literal: a minus, or nothing.
pub open spec fn sign_of(negative: bool) -> Seq<char> {
    if negative {
        seq!['-']
    } else {
        Seq::empty()
    }
}

/// A row of digits that is followed by no further digit ends where it ends.
pub proof fn lemma_digits_end(text: Seq<char>, from: int, to: int)
    requires
        0 <= from <= to <= text.len(),
        forall|k: int| from <= k < to ==> decimal_digit(text[k]),
        to < text.len() ==> !decimal_digit(text[to]),
    ensures
        digits_end(text, from) == to,
    decreases to - from,
{
    if from < to {
        lemma_digits_end(text, from + 1, to);
    }
}

/// No unit's name begins with a digit, and none is empty.
pub proof fn lemma_unit_name_starts_with_letter(name: Seq<char>)
    requires
        unit_named(name) is Some,
    ensures
        name.len() > 0,
        !decimal_digit(name[0]),
        !white_space(name[0]),
{
}

/// A literal written as a sign, a whole number and a unit stands for that
/// number of the unit, in nanoseconds: reading it yields the product, exactly,
/// where the product fits in a signed 64-bit integer, and fails with an
/// overflow where it does not.
pub proof fn law_token_value(negative: bool, digits: Seq<char>, name: Seq<char>)
    requires
        digits.len() > 0,
        forall|k: int| 0 <= k < digits.len() ==> decimal_digit(digits[k]),
        unit_named(name) is Some,
    ensures
        ({
            let text = sign_of(negative) + digits + name;
            let magnitude = decimal_value(digits) * unit_named(name)->0.nanos();
            let nanos = if negative { -magnitude } else { magnitude };
            &&& token_nanos(text) == Some(nanos)
            &&& i64::MIN <= nanos <= i64::MAX ==> token_outcome(text) == Ok::<i64, ParseFailure>(
                nanos as i64,
            )
            &&& !(i64::MIN <= nanos <= i64::MAX) ==> token_outcome(text) == Err::<
                i64,
                ParseFailure,
            >(ParseFailure::Overflow)
        }),
{
    let text = sign_of(negative) + digits + name;
    let first: int = if negative { 1 } else { 0 };
    let end = first + digits.len();
    lemma_unit_name_starts_with_letter(name);
    assert(text[0] == if negative { '-' } else { digits[0] });
    assert forall|k: int| first <= k < end implies decimal_digit(text[k]) by {
        assert(text[k] == digits[k - first]);
    }
    assert(text[end] == name[0]);
    lemma_digits_end(text, first, end);
    assert(token_parts(text).digits == digits);
    assert(token_parts(text).suffix == name);
}

} // verus!
