//! A production depends on the input only from its own start on: where
//! the same text stands at another offset, it does the same there, with
//! every offset moved along.

pub mod moved;
pub mod names;
pub mod literals;
pub mod types;
pub mod members;
pub mod declarations;
pub mod rules;
