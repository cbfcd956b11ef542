//! The conversion of one value.

use crate::compound::{compound_to_duration, parsed_compound};
use crate::error::{ConversionError, ConversionErrorView, ParseErrorView};
use crate::span::Span;
use crate::value::{InputValue, ValueView};
use vstd::prelude::*;

verus! {

/// The types that have a conversion, as an error names them.
pub const EXPECTED_INPUT: &'static str = "string or duration";

/// The error for a text that holds no duration: what the parser found, and
/// the place `dst_span` at which the conversion was asked for.
pub open spec fn cant_convert(e: ParseErrorView, dst_span: Span) -> ConversionErrorView {
    ConversionErrorView::CantConvertToDuration {
        failure: e.failure,
        details: e.text,
        dst_span,
        src_span: e.span,
        help: e.help,
    }
}

/// The error for a value of a type that has no conversion.
pub open spec fn type_mismatch(input: ValueView, dst_span: Span) -> ConversionErrorView {
    ConversionErrorView::TypeMismatch {
        expected: EXPECTED_INPUT@,
        actual: input.type_label(),
        dst_span,
        src_span: input.span().unwrap(),
    }
}

/// What the conversion, asked for at `span`, makes of `input`:
/// - a duration stays as it is;
/// - a string becomes the duration that it spells, placed at `span`, or the
///   error that tells why it spells none;
/// - an error stays as it is;
/// - anything else becomes an error that names its type.
pub open spec fn converted(input: ValueView, span: Span) -> ValueView {
    match input {
        ValueView::Duration { .. } => input,
        ValueView::String { val, span: value_span } => match parsed_compound(val, value_span) {
            Ok(nanos) => ValueView::Duration { val: nanos, span },
            Err(e) => ValueView::Error { error: cant_convert(e, span) },
        },
        ValueView::Error { .. } => input,
        _ => ValueView::Error { error: type_mismatch(input, span) },
    }
}

/// The error value for `input`, which stands at `src_span` and is of a type
/// that has no conversion.
fn mismatch(input: &InputValue, dst_span: Span, src_span: Span) -> (output: InputValue)
    requires
        input@.span() == Some(src_span),
    ensures
        output@ == (ValueView::Error { error: type_mismatch(input@, dst_span) }),
{
    InputValue::Error {
        error: ConversionError::TypeMismatch {
            expected: EXPECTED_INPUT.to_owned(),
            actual: input.get_type(),
            dst_span,
            src_span,
        },
    }
}

/// Converts one value to a duration, for a conversion asked for at `span`.
/// It never fails: what cannot be converted becomes an error value.
pub fn action(input: &InputValue, span: Span) -> (output: InputValue)
    ensures
        output@ == converted(input@, span),
        input@ is Duration ==> output@ == input@,
        input@ is Error ==> output@ == input@,
{
    match input {
        InputValue::Duration { val, span: value_span } => InputValue::Duration {
            val: *val,
            span: *value_span,
        },
        InputValue::String { val, span: value_span } => match compound_to_duration(
            val.as_str(),
            *value_span,
        ) {
            Ok(val) => InputValue::Duration { val, span },
            Err(e) => InputValue::Error {
                error: ConversionError::CantConvertToDuration {
                    failure: e.failure,
                    details: e.text,
                    dst_span: span,
                    src_span: e.span,
                    help: e.help,
                },
            },
        },
        InputValue::Error { error } => InputValue::Error { error: error.clone() },
        other => mismatch(other, span, other.expect_span()),
    }
}

} // verus!
