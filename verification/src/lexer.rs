//! Lexical analyzer for Violette.
//!
//! Converts source code into a sequence of tokens, categorizing keywords,
//! identifiers, literals and operators.
pub mod chars;
pub mod error;
pub mod lexer;
pub mod rules;
pub mod span;
pub mod token;
