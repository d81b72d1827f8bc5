use vstd::prelude::*;

use crate::lexer::token::Token;

verus! {

/// A point in the source text.
#[derive(Debug, Clone, Copy, PartialEq, Eq, Structural)]
pub struct Position {
    /// 1-based line number.
    pub line: usize,
    /// 1-based column number.
    pub col: usize,
}

impl Position {
    pub fn new(line: usize, col: usize) -> (res: Self)
        ensures
            res.line == line,
            res.col == col,
    {
        Position { line, col }
    }
}

/// Source code location represented by line and column numbers.
///
/// Used for diagnostic reporting and error tracking.
#[derive(Debug, Clone, Copy, PartialEq, Eq, Structural)]
pub struct Span {
    pub start: Position,
    pub end: Position,
}

impl Span {
    pub fn new(start: Position, end: Position) -> (res: Self)
        ensures
            res.start == start,
            res.end == end,
    {
        Span { start, end }
    }

    /// The span at line 0, column 0, used for entities that have no place in the source.
    pub fn origin() -> (res: Self)
        ensures
            res.start == (Position { line: 0, col: 0 }),
            res.end == (Position { line: 0, col: 0 }),
    {
        Span { start: Position { line: 0, col: 0 }, end: Position { line: 0, col: 0 } }
    }

    /// The span that starts where `self` starts and ends where `other` ends.
    pub fn merge(&self, other: &Span) -> (res: Span)
        ensures
            res.start == self.start,
            res.end == other.end,
    {
        Span { start: self.start, end: other.end }
    }
}

/// Token paired with its source code location.
#[derive(Debug, Clone, PartialEq)]
pub struct SpannedToken {
    pub token: Token,
    pub span: Span,
}

} // verus!
