//! What can go wrong while a value is converted.

use crate::cell_path::{PathMember, PathMemberView};
use crate::span::Span;
use vstd::prelude::*;

verus! {

/// The help text that goes with a literal that could not be read.
pub const UNITS_HELP: &'static str = "supported units are ns, us/µs, ms, sec, min, hr, day, and wk";

/// Why a duration literal could not be read.
#[derive(Clone, Copy, Debug, PartialEq, Eq, Structural)]
pub enum ParseFailure {
    /// The text is not a whole number followed by a known unit.
    MalformedToken,
    /// The number of nanoseconds does not fit in a signed 64-bit integer.
    Overflow,
}

/// A duration literal that could not be read.
#[derive(Debug, PartialEq, Eq)]
pub struct ParseError {
    /// Why it could not be read.
    pub failure: ParseFailure,
    /// The text at fault.
    pub text: String,
    /// Where that text stands.
    pub span: Span,
    /// The units that are accepted.
    pub help: String,
}

/// What a [`ParseError`] stands for.
pub struct ParseErrorView {
    pub failure: ParseFailure,
    pub text: Seq<char>,
    pub span: Span,
    pub help: Seq<char>,
}

impl View for ParseError {
    type V = ParseErrorView;

    open spec fn view(&self) -> ParseErrorView {
        ParseErrorView { failure: self.failure, text: self.text@, span: self.span, help: self.help@ }
    }
}

impl Clone for ParseError {
    fn clone(&self) -> (copy: Self)
        ensures
            copy@ == self@,
    {
        ParseError {
            failure: self.failure,
            text: self.text.clone(),
            span: self.span,
            help: self.help.clone(),
        }
    }
}

/// The error that a value turns into when it cannot be converted.
#[derive(Debug, PartialEq, Eq)]
pub enum ConversionError {
    /// A string did not hold a duration.
    CantConvertToDuration {
        failure: ParseFailure,
        details: String,
        dst_span: Span,
        src_span: Span,
        help: String,
    },
    /// The value is of a type that has no conversion.
    TypeMismatch { expected: String, actual: String, dst_span: Span, src_span: Span },
    /// A path names a place that the value does not have.
    PathResolutionFailure { member: PathMember, src_span: Span },
    /// An error that the value carried before it came to the conversion.
    Upstream { msg: String },
}

/// What a [`ConversionError`] stands for.
pub enum ConversionErrorView {
    CantConvertToDuration {
        failure: ParseFailure,
        details: Seq<char>,
        dst_span: Span,
        src_span: Span,
        help: Seq<char>,
    },
    TypeMismatch { expected: Seq<char>, actual: Seq<char>, dst_span: Span, src_span: Span },
    PathResolutionFailure { member: PathMemberView, src_span: Span },
    Upstream { msg: Seq<char> },
}

impl View for ConversionError {
    type V = ConversionErrorView;

    open spec fn view(&self) -> ConversionErrorView {
        match self {
            ConversionError::CantConvertToDuration { failure, details, dst_span, src_span, help } =>
                ConversionErrorView::CantConvertToDuration {
                    failure: *failure,
                    details: details@,
                    dst_span: *dst_span,
                    src_span: *src_span,
                    help: help@,
                },
            ConversionError::TypeMismatch { expected, actual, dst_span, src_span } =>
                ConversionErrorView::TypeMismatch {
                    expected: expected@,
                    actual: actual@,
                    dst_span: *dst_span,
                    src_span: *src_span,
                },
            ConversionError::PathResolutionFailure { member, src_span } =>
                ConversionErrorView::PathResolutionFailure { member: member@, src_span: *src_span },
            ConversionError::Upstream { msg } => ConversionErrorView::Upstream { msg: msg@ },
        }
    }
}

impl Clone for ConversionError {
    fn clone(&self) -> (copy: Self)
        ensures
            copy@ == self@,
    {
        match self {
            ConversionError::CantConvertToDuration { failure, details, dst_span, src_span, help } =>
                ConversionError::CantConvertToDuration {
                    failure: *failure,
                    details: details.clone(),
                    dst_span: *dst_span,
                    src_span: *src_span,
                    help: help.clone(),
                },
            ConversionError::TypeMismatch { expected, actual, dst_span, src_span } =>
                ConversionError::TypeMismatch {
                    expected: expected.clone(),
                    actual: actual.clone(),
                    dst_span: *dst_span,
                    src_span: *src_span,
                },
            ConversionError::PathResolutionFailure { member, src_span } =>
                ConversionError::PathResolutionFailure { member: member.clone(), src_span: *src_span },
            ConversionError::Upstream { msg } => ConversionError::Upstream { msg: msg.clone() },
        }
    }
}

} // verus!
