use vstd::prelude::*;

verus! {

/// Errors met while reading characters.
#[derive(Clone, Debug, PartialEq)]
pub enum LexError {
    /// Used for unclosed quotes in string literals.
    UnclosedString,
    /// Used for unclosed block commentaries.
    UnclosedComment,
    /// Used for empty radix digit (`0x` with nothing after it).
    EmptyRadixDigits { radix: &'static str },
    /// Used for invalid number type suffix (`123_xyz`).
    InvalidNumberSuffix(String),
    /// Used for integer overflow cases (`200_i8`).
    NumberOverflow(String),
    /// Used for tracing unexpected characters (general case).
    UnexpectedChar(char),
}

} // verus!
