//! The shape of what the grammar leaves: every match ends within the
//! input, at or after its start, and its nodes are trees that lie inside
//! one another and beside one another in the order of the text.

pub mod forest;
pub mod names;
pub mod literals;
pub mod types;
pub mod members;
pub mod declarations;
pub mod rules;
