//! Every node of a syntax tree spans something: no node is empty.

pub mod firm;
pub mod names;
pub mod literals;
pub mod types;
pub mod members;
pub mod declarations;
pub mod rules;
