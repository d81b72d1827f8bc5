//! Parser and AST builder for Violette.
//!
//! Takes the tokens of the lexer and builds an abstract syntax tree of
//! statements and expressions, checking that the code is well-formed.
pub mod error;
pub mod expression;
pub mod parser;
pub mod program;
pub mod shape;
pub mod statement;
pub mod types;
pub mod validate;

pub use expression::Expression;
pub use statement::Statement;
pub use types::{ParseError, Precedence};
