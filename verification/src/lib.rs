//! A recognizer for a small signature language that describes the public
//! shape of object-oriented programs: class, module and constant
//! declarations, their members, and the type expressions they mention.
//!
//! The grammar is a parsing-expression grammar over bytes. Every production
//! is written twice: once as a mathematical function in [`grammar`], which
//! says what the production matches at a position, and once as an executable
//! method of [`Context`], proved to compute exactly that function.
//! [`RbsParser::parse`] and the functions named after the productions parse
//! a whole text and hand back a [`SyntaxTree`] or a [`SyntaxError`].
//!
//! What holds of the grammar as a whole is proved in [`laws`] and
//! [`spacing`], on top of five families of lemmas that say of every
//! production that its nodes nest ([`nesting`]), that it matches nothing
//! empty ([`progress`], [`firmness`]), that it depends only on what it
//! looked at ([`locality`]) and only on the text from its start on
//! ([`shifting`]); [`reach`] bounds how far the type grammar looks ahead.

pub mod rule;
pub mod tree;
pub mod grammar;
pub mod context;
pub mod names;
pub mod literals;
pub mod types;
pub mod members;
pub mod declarations;
pub mod parser;
pub mod boolean;

pub mod nesting;
pub mod progress;
pub mod firmness;
pub mod locality;
pub mod shifting;
pub mod reach;
pub mod spacing;
pub mod laws;

pub use context::Context;
pub use parser::RbsParser;
pub use rule::Rule;
pub use tree::{SyntaxError, SyntaxNode, SyntaxTree};
