//! A production that matches has matched something: its match is not
//! empty.

pub mod words;
pub mod names;
pub mod literals;
pub mod types;
pub mod members;
pub mod declarations;
