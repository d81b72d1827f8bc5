//! C code generation: lowers a checked program to C99 source that includes
//! the Violette runtime header.
pub mod codegen;
pub mod error;
pub mod expr_text;
