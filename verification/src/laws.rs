//! Laws that the conversion obeys, proved of its specification.

pub mod literals;
pub mod pieces;
pub mod sums;
pub mod values;
