//! A production depends on the input only through the bytes that it
//! looked at: on another input with the same bytes there, it does the same.

pub mod agreeing;
pub mod names;
pub mod literals;
pub mod types;
pub mod members;
pub mod declarations;
pub mod rules;
