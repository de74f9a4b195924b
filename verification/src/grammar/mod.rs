//! The grammar as mathematical functions on a byte sequence and a position.

pub mod step;
pub mod lexical;
pub mod names;
pub mod literals;
pub mod types;
pub mod members;
pub mod declarations;
pub mod rules;
