use vstd::prelude::*;

use crate::lexer::token::PrimitiveType;
pub use crate::parser::error::ParseError;

verus! {

/// Binding power of operators, from the loosest to the tightest.
#[derive(Debug, Clone, Copy, PartialEq, Eq, Structural, PartialOrd)]
pub enum Precedence {
    /// Base syntax.
    Lowest,
    /// `=` and the compound assignments.
    Assign,
    /// `||`
    LogicOr,
    /// `&&`
    LogicAnd,
    /// `#`
    BitOr,
    /// `^`
    BitXor,
    /// `&`
    BitAnd,
    /// `==` `!=`
    Equals,
    /// `<` `>` `<=` `>=`
    LessGreater,
    /// `:` `..`
    Range,
    /// `~>`
    Sprout,
    /// `>>` `<<`
    Shift,
    /// `+` `-`
    Sum,
    /// `*` `/` `%`
    Product,
    /// `-X` `!X` `++X` `--X`
    Prefix,
    /// `**`
    Power,
    /// `x++` `x--` `()` `[]` `.`
    Postfix,
}

impl Precedence {
    /// The place of the level in the order from loosest (0) to tightest.
    pub open spec fn spec_rank(self) -> u8 {
        match self {
            Precedence::Lowest => 0,
            Precedence::Assign => 1,
            Precedence::LogicOr => 2,
            Precedence::LogicAnd => 3,
            Precedence::BitOr => 4,
            Precedence::BitXor => 5,
            Precedence::BitAnd => 6,
            Precedence::Equals => 7,
            Precedence::LessGreater => 8,
            Precedence::Range => 9,
            Precedence::Sprout => 10,
            Precedence::Shift => 11,
            Precedence::Sum => 12,
            Precedence::Product => 13,
            Precedence::Prefix => 14,
            Precedence::Power => 15,
            Precedence::Postfix => 16,
        }
    }

    #[verifier::when_used_as_spec(spec_rank)]
    pub fn rank(self) -> (r: u8)
        ensures
            r == self.spec_rank(),
    {
        match self {
            Precedence::Lowest => 0,
            Precedence::Assign => 1,
            Precedence::LogicOr => 2,
            Precedence::LogicAnd => 3,
            Precedence::BitOr => 4,
            Precedence::BitXor => 5,
            Precedence::BitAnd => 6,
            Precedence::Equals => 7,
            Precedence::LessGreater => 8,
            Precedence::Range => 9,
            Precedence::Sprout => 10,
            Precedence::Shift => 11,
            Precedence::Sum => 12,
            Precedence::Product => 13,
            Precedence::Prefix => 14,
            Precedence::Power => 15,
            Precedence::Postfix => 16,
        }
    }
}

/// A type as written in the source.
#[derive(Debug, PartialEq)]
pub enum Type {
    Primitive(PrimitiveType),
    Named(TypePath),
    Fn { params: Vec<Type>, ret: Option<Box<Type>> },
    Generic { name: String, param: Box<Type> },
    Union(Vec<Type>),
    Infer,
}

/// A dotted path of names, such as `std.vector`.
#[derive(Clone, Debug, PartialEq)]
pub struct TypePath {
    pub segments: Vec<String>,
}

} // verus!
