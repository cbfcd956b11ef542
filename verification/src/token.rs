//! Single duration literals: a whole number and a unit, such as `7min`.

use crate::error::{ParseError, ParseErrorView, ParseFailure, UNITS_HELP};
use crate::span::Span;
use crate::text::{chars_of, decimal_digit, digit_value, is_decimal_digit};
use crate::units::{lookup_unit, unit_named};
use vstd::string::StrSliceExecFns;
use vstd::prelude::*;

verus! {

/// The number that a row of decimal digits writes. The empty row writes 0.
pub open spec fn decimal_value(digits: Seq<char>) -> nat
    decreases digits.len(),
{
    if digits.len() == 0 {
        0
    } else {
        10 * decimal_value(digits.drop_last()) + digit_value(digits.last())
    }
}

/// The index at which the row of decimal digits that begins at `from` ends:
/// that of the first character at or after `from` that is no digit, or the
/// length of `text`.
pub open spec fn digits_end(text: Seq<char>, from: int) -> int
    decreases text.len() - from,
{
    if 0 <= from < text.len() && decimal_digit(text[from]) {
        digits_end(text, from + 1)
    } else {
        from
    }
}

/// The three parts of a literal.
pub struct TokenParts {
    /// Whether a minus sign leads.
    pub negative: bool,
    /// The longest row of digits behind the sign.
    pub digits: Seq<char>,
    /// All that follows the digits.
    pub suffix: Seq<char>,
}

/// A text taken apart into sign, digits and suffix.
pub open spec fn token_parts(text: Seq<char>) -> TokenParts {
    let negative = text.len() > 0 && text[0] == '-';
    let first: int = if negative { 1 } else { 0 };
    let end = digits_end(text, first);
    TokenParts {
        negative,
        digits: text.subrange(first, end),
        suffix: text.subrange(end, text.len() as int),
    }
}

/// The number of nanoseconds that a literal stands for, however large; `None`
/// where the text is no literal: where it has no digit or its suffix is no
/// unit.
pub open spec fn token_nanos(text: Seq<char>) -> Option<int> {
    let parts = token_parts(text);
    if parts.digits.len() == 0 {
        None
    } else {
        match unit_named(parts.suffix) {
            None => None,
            Some(unit) => {
                let magnitude = decimal_value(parts.digits) * unit.nanos();
                Some(if parts.negative { -magnitude } else { magnitude })
            },
        }
    }
}

/// What reading `text` as a literal comes to.
pub open spec fn token_outcome(text: Seq<char>) -> Result<i64, ParseFailure> {
    match token_nanos(text) {
        None => Err(ParseFailure::MalformedToken),
        Some(nanos) => if i64::MIN <= nanos <= i64::MAX {
            Ok(nanos as i64)
        } else {
            Err(ParseFailure::Overflow)
        },
    }
}

/// The error for a `text` at `span` that could not be read.
pub open spec fn parse_error(failure: ParseFailure, text: Seq<char>, span: Span) -> ParseErrorView {
    ParseErrorView { failure, text, span, help: UNITS_HELP@ }
}

/// What reading the literal `text`, which stands at `span`, comes to.
pub open spec fn parsed_token(text: Seq<char>, span: Span) -> Result<i64, ParseErrorView> {
    match token_outcome(text) {
        Ok(nanos) => Ok(nanos),
        Err(failure) => Err(parse_error(failure, text, span)),
    }
}

/// The error for the text `s` at `span`.
pub(crate) fn failed(failure: ParseFailure, s: &str, span: Span) -> (e: ParseError)
    ensures
        e@ == parse_error(failure, s@, span),
{
    ParseError { failure, text: s.to_owned(), span, help: UNITS_HELP.to_owned() }
}

/// Reads one literal, `<digits><unit>` with an optional leading `-`, and
/// gives the number of nanoseconds it stands for.
pub fn string_to_duration(s: &str, span: Span) -> (r: Result<i64, ParseError>)
    ensures
        match r {
            Ok(nanos) => parsed_token(s@, span) == Ok::<i64, ParseErrorView>(nanos),
            Err(e) => parsed_token(s@, span) == Err::<i64, ParseErrorView>(e@),
        },
{
    let chars = chars_of(s);
    let n = chars.len();
    let negative = n > 0 && chars[0] == '-';
    let first: usize = if negative { 1 } else { 0 };
    let mut i: usize = first;
    let mut magnitude: u128 = 0;
    let mut huge = false;
    while i < n && is_decimal_digit(chars[i])
        invariant
            first <= i <= n,
            n == chars@.len(),
            chars@ == s@,
            digits_end(s@, first as int) == digits_end(s@, i as int),
            !huge ==> magnitude == decimal_value(s@.subrange(first as int, i as int)) && magnitude
                <= 0x8000_0000_0000_0000,
            huge ==> decimal_value(s@.subrange(first as int, i as int)) > 0x8000_0000_0000_0000,
        decreases n - i,
    {
        let digit = (chars[i] as u32 - 0x30) as u128;
        proof {
            let longer = s@.subrange(first as int, i + 1);
            assert(longer.drop_last() == s@.subrange(first as int, i as int));
            assert(longer.last() == s@[i as int]);
        }
        if !huge {
            magnitude = magnitude * 10 + digit;
            if magnitude > 0x8000_0000_0000_0000 {
                huge = true;
            }
        }
        i = i + 1;
    }
    if i == first {
        return Err(failed(ParseFailure::MalformedToken, s, span));
    }
    let (unit, multiplier) = match lookup_unit(s.substring_char(i, n)) {
        Some(found) => found,
        None => {
            return Err(failed(ParseFailure::MalformedToken, s, span));
        },
    };
    let ghost value = decimal_value(s@.subrange(first as int, i as int));
    assert(token_nanos(s@) == Some(
        if negative {
            -(value * unit.nanos())
        } else {
            value * unit.nanos()
        },
    ));
    if huge {
        assert(value * unit.nanos() > 0x8000_0000_0000_0000) by (nonlinear_arith)
            requires
                value > 0x8000_0000_0000_0000,
                unit.nanos() >= 1,
        ;
        return Err(failed(ParseFailure::Overflow, s, span));
    }
    let multiplier = multiplier as i128;
    assert(0 <= magnitude * multiplier <= 0x8000_0000_0000_0000 * 604_800_000_000_000)
        by (nonlinear_arith)
        requires
            0 <= magnitude <= 0x8000_0000_0000_0000,
            1 <= multiplier <= 604_800_000_000_000,
    ;
    let product: i128 = (magnitude as i128) * multiplier;
    let nanos: i128 = if negative { -product } else { product };
    if nanos < i64::MIN as i128 || nanos > i64::MAX as i128 {
        Err(failed(ParseFailure::Overflow, s, span))
    } else {
        Ok(nanos as i64)
    }
}

} // verus!
