//! Conversion of human-written duration literals into nanosecond counts.
//!
//! A duration literal is a whole number and a unit, such as `7min`; a
//! compound literal is a row of them, such as `1day 2hr 3min 4sec`, and
//! stands for their sum. The conversion takes a value that carries such a
//! text and gives the duration that the text spells, as a signed 64-bit
//! count of nanoseconds. It is applied to single values, to the values of a
//! list or a stream one by one, or to the values that stand at given paths
//! inside each of them. What cannot be converted becomes an error value in
//! its place, and never ends the work on the values around it.
//!
//! The modules, from the leaves up:
//! - [`span`], [`text`]: places in the source, and characters and their
//!   bytes;
//! - [`units`]: the table of units;
//! - [`token`]: single literals;
//! - [`compound`]: compound literals;
//! - [`error`], [`cell_path`], [`value`]: errors, paths and values;
//! - [`action`]: the conversion of one value;
//! - [`update`]: the conversion at a path inside a value;
//! - [`pipeline`]: the conversion of all that comes down the pipeline;
//! - [`command`]: the command with its name and its examples;
//! - [`laws`]: what holds of all of these, proved.

pub mod action;
pub mod cell_path;
pub mod command;
pub mod compound;
pub mod error;
pub mod laws;
pub mod pipeline;
pub mod span;
pub mod text;
pub mod token;
pub mod units;
pub mod update;
pub mod value;

pub use action::action;
pub use cell_path::{CellPath, PathMember};
pub use command::{Example, SubCommand};
pub use compound::{compound_to_duration, split_whitespace_indices, ParsedToken};
pub use error::{ConversionError, ParseError, ParseFailure};
pub use pipeline::{into_duration, PipelineData};
pub use span::Span;
pub use text::addr_of;
pub use token::string_to_duration;
pub use units::{lookup_unit, DurationUnit};
pub use update::update_cell_path;
pub use value::InputValue;
