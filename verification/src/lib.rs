//! Violette: a statically typed language compiled to C.
//!
//! The library holds the front end (lexer, parser, type checker), the C code
//! generator and the diagnostics renderer.
#![allow(clippy::module_inception)]

pub mod lexer;
pub mod text;
pub mod typechecker;
pub mod parser;
pub mod codegen;
pub mod diagnostics;
pub mod driver;
