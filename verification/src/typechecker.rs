//! Semantics and type checking phase.
//!
//! Traverses the AST built by the parser and checks type correctness before
//! code generation; also checks visibility scopes and callable entities.
pub mod checker;
pub mod env;
pub mod table;
pub mod error;
pub mod types;
pub mod typing;
pub mod reports;
