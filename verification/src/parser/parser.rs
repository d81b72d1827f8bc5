use vstd::prelude::*;

use crate::lexer::lexer::Lexer;
use crate::lexer::rules::{lemma_lex, lemma_lex_eof_sticky, lex, position_at};
use crate::lexer::span::{Span, SpannedToken};
use crate::lexer::token::{PrimitiveType, Token, TokenView};
use crate::parser::expression::{spec_token_precedence, token_precedence};
use crate::parser::shape::{lemma_types_wf, type_wf};
use crate::parser::types::{ParseError, Precedence, Type, TypePath};

verus! {

/// How deeply types, expressions and statements may nest.
pub const MAX_DEPTH: u32 = 64;

/// Builds the AST from the tokens of a [`Lexer`].
pub struct Parser {
    pub lexer: Lexer,
    pub current_token: SpannedToken,
    pub peek_token: SpannedToken,
    pub depth: u32,
    pub allowed_struct_literal: bool,
    pub paren_depth: usize,
}

/// Where a parser stands in its source, as the tokens it sees: the current
/// and next token, and the index in the source where the token after those
/// is lexed.
pub struct Cursor {
    pub src: Seq<char>,
    pub cur: TokenView,
    pub peek: TokenView,
    pub idx: int,
}

/// The cursor one token further on.
pub open spec fn step(c: Cursor) -> Cursor {
    let l = lex(c.src, c.idx);
    Cursor { src: c.src, cur: c.peek, peek: l.token, idx: l.end }
}

/// How much input is left before a cursor (as the parser counts it).
pub open spec fn cursor_measure(c: Cursor) -> int {
    3 * (c.src.len() - c.idx) + (if c.cur == TokenView::Plain(Token::Eof) {
        0int
    } else {
        1int
    }) + (if c.peek == TokenView::Plain(Token::Eof) {
        0int
    } else {
        1int
    })
}

/// The cursor after the line breaks and semicolons at it are passed.
pub open spec fn skip_breaks(c: Cursor) -> Cursor
    decreases cursor_measure(c),
{
    if c.cur == TokenView::Plain(Token::Newline) || c.cur == TokenView::Plain(Token::Semicolon) {
        let c1 = step(c);
        if 0 <= cursor_measure(c1) < cursor_measure(c) {
            skip_breaks(c1)
        } else {
            c1
        }
    } else {
        c
    }
}

/// The error for a token that was not expected where it stands.
pub open spec fn spec_unexpected(tok: &SpannedToken) -> ParseError {
    if tok.token is Eof {
        ParseError::UnexpectedEof { expected: "more input", span: tok.span }
    } else {
        ParseError::UnexpectedToken { token: tok.token, span: tok.span }
    }
}

impl Parser {
    /// The chars of the source being parsed.
    pub open spec fn source(&self) -> Seq<char> {
        self.lexer.source()
    }

    /// The index in the source where the token after `peek_token` is looked for.
    pub open spec fn lexer_index(&self) -> int {
        self.lexer.index()
    }

    /// The cursor the parser stands at.
    pub open spec fn cursor(&self) -> Cursor {
        Cursor {
            src: self.source(),
            cur: self.current_token.token@,
            peek: self.peek_token.token@,
            idx: self.lexer_index(),
        }
    }

    /// The parser's measure is the measure of its cursor.
    pub proof fn lemma_cursor_measure(&self)
        ensures
            self.measure() == cursor_measure(self.cursor()),
    {
    }

    pub open spec fn wf(&self) -> bool {
        &&& self.lexer.wf()
        &&& 0 <= self.lexer.index() <= self.lexer.source().len()
        &&& self.depth <= MAX_DEPTH
        &&& (self.current_token.token is Eof ==> self.peek_token.token is Eof)
        &&& (self.peek_token.token is Eof ==> {
            &&& lex(self.lexer.source(), self.lexer.index()).token == TokenView::Plain(Token::Eof)
            &&& lex(self.lexer.source(), self.lexer.index()).end == self.lexer.index()
        })
    }

    /// How much input is left: it goes down with every token consumed before
    /// the end of the input.
    pub open spec fn measure(&self) -> int {
        3 * (self.lexer.source().len() - self.lexer.index()) + (if self.current_token.token is Eof {
            0int
        } else {
            1int
        }) + (if self.peek_token.token is Eof {
            0int
        } else {
            1int
        })
    }

    /// `self` is a later state of the parser `prev`: the same source, the same
    /// nesting depth, and no input given back.
    pub open spec fn frame(&self, prev: &Parser) -> bool {
        &&& self.wf()
        &&& self.source() == prev.source()
        &&& self.depth == prev.depth
        &&& self.paren_depth >= prev.paren_depth
        &&& self.measure() <= prev.measure()
    }

    /// Reaching the end of the input from a state that was not at the end
    /// consumes some input.
    pub proof fn lemma_reaching_eof(&self, prev: &Parser)
        requires
            self.frame(prev),
            prev.wf(),
            !(prev.current_token.token is Eof),
            self.current_token.token is Eof,
        ensures
            self.measure() < prev.measure(),
    {
        self.lexer.lemma_index_bounds();
        prev.lexer.lemma_index_bounds();
    }

    pub fn new(lexer: Lexer) -> (p: Self)
        requires
            lexer.wf(),
        ensures
            p.wf(),
            p.source() == lexer.source(),
            p.depth == 0,
            p.paren_depth == 0,
    {
        let mut lexer = lexer;
        let ghost i0 = lexer.index();
        proof {
            lexer.lemma_index_bounds();
        }
        let curr_spanned_token = lexer.next_token();
        let ghost s = lexer.source();
        let ghost i1 = lexer.index();
        proof {
            lexer.lemma_index_bounds();
        }
        let peek_spanned_token = lexer.next_token();
        proof {
            lemma_lex(s, i1);
            lemma_lex(s, i0);
            if curr_spanned_token.token is Eof {
                assert(curr_spanned_token.token@ == TokenView::Plain(Token::Eof));
                lemma_lex_eof_sticky(s, i0);
            }
            if peek_spanned_token.token is Eof {
                assert(peek_spanned_token.token@ == TokenView::Plain(Token::Eof));
                lemma_lex_eof_sticky(s, i1);
            }
        }
        Parser {
            lexer,
            current_token: curr_spanned_token,
            peek_token: peek_spanned_token,
            depth: 0,
            allowed_struct_literal: true,
            paren_depth: 0,
        }
    }

    /// The error for `tok`, a token that was not expected where it stands.
    pub fn unexpected(&self, tok: &SpannedToken) -> (e: ParseError)
        ensures
            e == spec_unexpected(tok),
    {
        if matches!(tok.token, Token::Eof) {
            ParseError::UnexpectedEof { expected: "more input", span: tok.span }
        } else {
            ParseError::UnexpectedToken { token: tok.token.duplicate(), span: tok.span }
        }
    }

    /// Moves one token forward.
    pub fn next_token(&mut self)
        requires
            old(self).wf(),
        ensures
            final(self).frame(old(self)),
            final(self).paren_depth == old(self).paren_depth,
            final(self).allowed_struct_literal == old(self).allowed_struct_literal,
            final(self).current_token == old(self).peek_token,
            !(old(self).current_token.token is Eof) ==> final(self).measure() < old(self).measure(),
            ({
                let l = lex(old(self).source(), old(self).lexer_index());
                &&& final(self).peek_token.token@ == l.token
                &&& final(self).lexer_index() == l.end
                &&& final(self).peek_token.span == (Span {
                    start: position_at(old(self).source(), l.start as nat),
                    end: position_at(old(self).source(), l.end as nat),
                })
            }),
            final(self).cursor() == step(old(self).cursor()),
            final(self).measure() == cursor_measure(final(self).cursor()),
    {
        let ghost s = self.lexer.source();
        let ghost i0 = self.lexer.index();
        proof {
            self.lexer.lemma_index_bounds();
        }
        let mut next = self.lexer.next_token();
        proof {
            lemma_lex(s, i0);
            if next.token is Eof {
                assert(next.token@ == TokenView::Plain(Token::Eof));
                lemma_lex_eof_sticky(s, i0);
            } else {
                assert(next.token@ != TokenView::Plain(Token::Eof));
            }
        }
        std::mem::swap(&mut self.peek_token, &mut next);
        self.current_token = next;
    }

    /// Skips newlines and semicolons.
    pub fn skip_terminators(&mut self)
        requires
            old(self).wf(),
        ensures
            final(self).frame(old(self)),
            final(self).paren_depth == old(self).paren_depth,
            final(self).allowed_struct_literal == old(self).allowed_struct_literal,
            !(final(self).current_token.token is Newline || final(self).current_token.token is Semicolon),
            old(self).current_token.token is Newline || old(self).current_token.token is Semicolon
                ==> final(self).measure() < old(self).measure(),
            !(old(self).current_token.token is Newline || old(self).current_token.token is Semicolon) ==> *final(self)
                == *old(self),
            final(self).cursor() == skip_breaks(old(self).cursor()),
    {
        while matches!(self.current_token.token, Token::Newline | Token::Semicolon)
            invariant
                skip_breaks(self.cursor()) == skip_breaks(old(self).cursor()),
                !(old(self).current_token.token is Newline || old(self).current_token.token is Semicolon) ==> *self
                    == *old(self),
                self.frame(old(self)),
                self.paren_depth == old(self).paren_depth,
                self.allowed_struct_literal == old(self).allowed_struct_literal,
                old(self).current_token.token is Newline || old(self).current_token.token is Semicolon
                    ==> self.measure() < old(self).measure() || self == old(self),
            decreases self.measure(),
        {
            let ghost before = *self;
            proof {
                before.lexer.lemma_index_bounds();
            }
            self.next_token();
            proof {
                assert(before.measure() == cursor_measure(before.cursor()));
                assert(before.cursor().cur == TokenView::Plain(Token::Newline) || before.cursor().cur == TokenView::Plain(
                    Token::Semicolon,
                ));
                self.lexer.lemma_index_bounds();
            }
        }
    }

    pub fn current_precedence(&self) -> (p: Precedence)
        ensures
            p == spec_token_precedence(&self.current_token.token),
    {
        token_precedence(&self.current_token.token)
    }

    pub fn peek_precedence(&self) -> (p: Precedence)
        ensures
            p == spec_token_precedence(&self.peek_token.token),
    {
        token_precedence(&self.peek_token.token)
    }

    /// Moves past the current token if it is of the same kind as `expected`;
    /// otherwise fails with `err` and moves nowhere.
    pub fn expect(&mut self, expected: Token, err: ParseError) -> (r: Result<(), ParseError>)
        requires
            old(self).wf(),
        ensures
            final(self).frame(old(self)),
            final(self).paren_depth == old(self).paren_depth,
            final(self).allowed_struct_literal == old(self).allowed_struct_literal,
            r is Ok <==> old(self).current_token.token.spec_kind() == expected.spec_kind(),
            r is Ok ==> final(self).current_token == old(self).peek_token,
            r is Ok && !(expected is Eof) ==> final(self).measure() < old(self).measure(),
            r is Err ==> r == Err::<(), ParseError>(err) && *final(self) == *old(self),
            r is Ok ==> final(self).cursor() == step(old(self).cursor()),
    {
        if self.current_token.token.kind() == expected.kind() {
            self.next_token();
            Ok(())
        } else {
            Err(err)
        }
    }

    /// Parses a type: a function type `fun(T, ...) [R]`, a bracketed union
    /// `[A | B]`, or a single type or an unbracketed union `A | B`.
    pub fn parse_type(&mut self) -> (r: Result<Type, ParseError>)
        requires
            old(self).wf(),
        ensures
            final(self).frame(old(self)),
            r is Ok ==> final(self).measure() < old(self).measure(),
            old(self).depth == MAX_DEPTH ==> r == Err::<Type, ParseError>(
                ParseError::TooDeep { span: old(self).current_token.span },
            ),
            old(self).current_token.token is Fun ==> (r matches Ok(t) ==> t is Fn),
            r matches Ok(t) ==> type_wf(t),
        decreases MAX_DEPTH + 1 - old(self).depth, 0int,
    {
        self.depth = self.depth + 1;
        if self.depth > MAX_DEPTH {
            self.depth = self.depth - 1;
            return Err(ParseError::TooDeep { span: self.current_token.span });
        }
        let result = self.parse_type_inner();
        self.depth = self.depth - 1;
        result
    }

    fn parse_type_inner(&mut self) -> (r: Result<Type, ParseError>)
        requires
            old(self).wf(),
            old(self).depth >= 1,
        ensures
            final(self).frame(old(self)),
            r is Ok ==> final(self).measure() < old(self).measure(),
            old(self).current_token.token is Fun ==> (r matches Ok(t) ==> t is Fn),
            r matches Ok(t) ==> type_wf(t),
        decreases MAX_DEPTH + 1 - old(self).depth, 1int,
    {
        if matches!(self.current_token.token, Token::Fun) {
            self.next_token();
            let e = self.unexpected(&self.current_token);
            self.expect(Token::LeftParen, e)?;
            let mut types: Vec<Type> = Vec::new();
            if !matches!(self.current_token.token, Token::RightParen) {
                loop
                    invariant
                        self.frame(old(self)),
                        self.measure() < old(self).measure(),
                        forall|k: int| 0 <= k < types.len() ==> type_wf(#[trigger] types@[k]),
                    decreases self.measure(),
                {
                    let t = self.parse_type()?;
                    types.push(t);
                    if matches!(self.current_token.token, Token::Comma) {
                        self.next_token();
                    } else {
                        break;
                    }
                }
            }
            let e = self.unexpected(&self.current_token);
            self.expect(Token::RightParen, e)?;
            let mut ret: Option<Box<Type>> = None;
            if matches!(self.current_token.token, Token::LeftBracket) {
                self.next_token();
                let t = self.parse_type()?;
                ret = Some(Box::new(t));
                let e = self.unexpected(&self.current_token);
                self.expect(Token::RightBracket, e)?;
            }
            proof {
                lemma_types_wf(types@);
            }
            return Ok(Type::Fn { params: types, ret });
        }
        if matches!(self.current_token.token, Token::LeftBracket) {
            self.next_token();
            let mut variants: Vec<Type> = Vec::new();
            let first = self.parse_single_type()?;
            variants.push(first);
            self.skip_terminators();
            while matches!(self.current_token.token, Token::Pipe)
                invariant
                    self.frame(old(self)),
                    self.measure() < old(self).measure(),
                    variants.len() >= 1,
                    forall|k: int| 0 <= k < variants.len() ==> type_wf(#[trigger] variants@[k]),
                decreases self.measure(),
            {
                self.next_token();
                let t = self.parse_single_type()?;
                variants.push(t);
                self.skip_terminators();
            }
            let e = self.unexpected(&self.current_token);
            self.expect(Token::RightBracket, e)?;
            proof {
                lemma_types_wf(variants@);
            }
            if variants.len() == 1 {
                let only = variants.pop();
                match only {
                    Some(t) => {
                        return Ok(t);
                    },
                    None => {
                        return Ok(Type::Union(variants));
                    },
                }
            } else {
                return Ok(Type::Union(variants));
            }
        }
        self.skip_terminators();
        let first = self.parse_single_type()?;
        if !matches!(self.current_token.token, Token::Pipe) {
            return Ok(first);
        }
        let mut variants: Vec<Type> = Vec::new();
        variants.push(first);
        while matches!(self.current_token.token, Token::Pipe)
            invariant
                self.frame(old(self)),
                self.measure() < old(self).measure(),
                forall|k: int| 0 <= k < variants.len() ==> type_wf(#[trigger] variants@[k]),
            decreases self.measure(),
        {
            self.next_token();
            let t = self.parse_single_type()?;
            variants.push(t);
        }
        proof {
            lemma_types_wf(variants@);
        }
        Ok(Type::Union(variants))
    }

    /// Parses a primitive type, a dotted name, or a generic `Name(T)`.
    pub fn parse_single_type(&mut self) -> (r: Result<Type, ParseError>)
        requires
            old(self).wf(),
        ensures
            final(self).frame(old(self)),
            r is Ok ==> final(self).measure() < old(self).measure(),
            old(self).depth == MAX_DEPTH ==> r == Err::<Type, ParseError>(
                ParseError::TooDeep { span: old(self).current_token.span },
            ),
            old(self).depth < MAX_DEPTH ==> (old(self).current_token.token matches Token::PrimitiveType(p) ==> r
                == Ok::<Type, ParseError>(Type::Primitive(p)) && final(self).current_token == old(self).peek_token),
            old(self).depth < MAX_DEPTH && !(old(self).current_token.token is PrimitiveType)
                && !(old(self).current_token.token is Identifier) ==> r == Err::<Type, ParseError>(
                spec_unexpected(&old(self).current_token),
            ),
            r matches Ok(t) ==> type_wf(t),
        decreases MAX_DEPTH + 1 - old(self).depth, 0int,
    {
        self.depth = self.depth + 1;
        if self.depth > MAX_DEPTH {
            self.depth = self.depth - 1;
            return Err(ParseError::TooDeep { span: self.current_token.span });
        }
        let result = self.parse_single_type_inner();
        self.depth = self.depth - 1;
        result
    }

    fn parse_single_type_inner(&mut self) -> (r: Result<Type, ParseError>)
        requires
            old(self).wf(),
            old(self).depth >= 1,
        ensures
            final(self).frame(old(self)),
            r is Ok ==> final(self).measure() < old(self).measure(),
            (old(self).current_token.token matches Token::PrimitiveType(p) ==> r == Ok::<Type, ParseError>(
                Type::Primitive(p),
            ) && final(self).current_token == old(self).peek_token),
            !(old(self).current_token.token is PrimitiveType) && !(old(self).current_token.token is Identifier)
                ==> r == Err::<Type, ParseError>(spec_unexpected(&old(self).current_token)),
            r matches Ok(t) ==> type_wf(t),
        decreases MAX_DEPTH + 1 - old(self).depth, 1int,
    {
        match &self.current_token.token {
            Token::PrimitiveType(p) => {
                let prim = *p;
                self.next_token();
                Ok(Type::Primitive(prim))
            },
            Token::Identifier(name) => {
                let mut segments: Vec<String> = Vec::new();
                segments.push(name.clone());
                self.next_token();
                while matches!(self.current_token.token, Token::Dot)
                    invariant
                        self.frame(old(self)),
                        self.measure() < old(self).measure(),
                        segments.len() >= 1,
                        old(self).current_token.token is Identifier,
                    decreases self.measure(),
                {
                    self.next_token();
                    match &self.current_token.token {
                        Token::Identifier(sub) => {
                            segments.push(sub.clone());
                        },
                        _ => {
                            return Err(self.unexpected(&self.current_token));
                        },
                    }
                    self.next_token();
                }
                if matches!(self.current_token.token, Token::LeftParen) {
                    let e = self.unexpected(&self.current_token);
                    self.expect(Token::LeftParen, e)?;
                    let param = self.parse_single_type()?;
                    let e = self.unexpected(&self.current_token);
                    self.expect(Token::RightParen, e)?;
                    let last = segments[segments.len() - 1].clone();
                    Ok(Type::Generic { name: last, param: Box::new(param) })
                } else {
                    Ok(Type::Named(TypePath { segments }))
                }
            },
            _ => Err(self.unexpected(&self.current_token)),
        }
    }
}

} // verus!
