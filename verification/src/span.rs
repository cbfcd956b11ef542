//! Byte ranges of source text, used to attribute errors.

use vstd::prelude::*;

verus! {

/// A half-open byte range `[start, end)` of some source text.
#[derive(Clone, Copy, Debug, PartialEq, Eq, Structural)]
pub struct Span {
    pub start: usize,
    pub end: usize,
}

/// The position `delta` bytes behind `base`; where the machine cannot hold
/// that position, the greatest one it can hold.
pub open spec fn offset_by(base: usize, delta: nat) -> usize {
    if base + delta <= usize::MAX {
        (base + delta) as usize
    } else {
        usize::MAX
    }
}

impl Span {
    /// The range from `start` up to, and not including, `end`.
    pub fn new(start: usize, end: usize) -> (span: Span)
        ensures
            span == (Span { start, end }),
    {
        Span { start, end }
    }

    /// The range that stands for a place that is not known.
    pub fn unknown() -> (span: Span)
        ensures
            span == (Span { start: 0, end: 0 }),
    {
        Span { start: 0, end: 0 }
    }
}

} // verus!
