//! How far a production looks behind the end of its match.

pub mod names;
pub mod literals;
pub mod types;
pub mod members;
