use vstd::prelude::*;

use crate::lexer::span::{Span, SpannedToken};
use crate::lexer::token::{PrimitiveType, Token, TokenView};
use crate::parser::expression::Expression;
use crate::parser::parser::{cursor_measure, skip_breaks, spec_unexpected, step, Cursor, Parser, MAX_DEPTH};
use crate::parser::program::ImportItem;
use crate::parser::shape::{
    else_ifs_wf, expr_wf, lemma_else_ifs_wf, lemma_params_wf, lemma_stmts_wf, params_wf, stmt_wf, stmts_wf, type_wf,
};
use crate::parser::types::{ParseError, Precedence, Type};
use crate::text::{string_from, string_push, string_push_str};
use crate::typechecker::error::BindingKind;

verus! {

/// A statement of the AST.
#[derive(Debug, PartialEq)]
pub enum Statement {
    Expression { expression: Expression, span: Span },
    Var { name: String, value: Expression, span: Span },
    Let { name: String, value: Expression, span: Span },
    Const { name: String, value: Expression, span: Span },
    If(IfStatement),
    While { condition: Expression, body: Vec<Statement>, span: Span },
    ForRange { variable: String, iterable: Expression, body: Vec<Statement>, span: Span },
    ForCounter { init: Box<Statement>, condition: Expression, post: Expression, body: Vec<Statement>, span: Span },
    Break { span: Span },
    Continue { span: Span },
    Return { value: Option<Expression>, span: Span },
    ExternFunc { name: String, params: Vec<FuncParam>, return_type: Option<Type>, span: Span },
    Func {
        name: String,
        params: Vec<FuncParam>,
        return_type: Option<Type>,
        body: Vec<Statement>,
        span: Span,
        ending_span: Span,
    },
    Struct { name: String, fields: Vec<FuncParam>, span: Span },
    Extend { target: Type, methods: Vec<Statement>, span: Span },
}

#[derive(Debug, PartialEq)]
pub struct IfStatement {
    pub condition: Expression,
    pub then_block: Vec<Statement>,
    pub else_if: Vec<ElseIf>,
    pub else_block: Vec<Statement>,
    pub span: Span,
}

#[derive(Debug, PartialEq)]
pub struct ElseIf {
    pub condition: Expression,
    pub block: Vec<Statement>,
    pub span: Span,
}

/// A parameter of a function, or a field of a struct.
#[derive(Debug, PartialEq)]
pub struct FuncParam {
    pub name: String,
    pub param_type: Type,
    pub span: Span,
    pub kind: BindingKind,
    pub is_ref: bool,
}

pub type StructParam = FuncParam;

#[derive(Debug, PartialEq)]
pub struct MatchArm {
    pub pattern: Expression,
    pub body: Expression,
    pub span: Span,
}

impl Statement {
    pub open spec fn spec_span(&self) -> Span {
        match self {
            Statement::Expression { span, .. } => *span,
            Statement::Var { span, .. } => *span,
            Statement::Let { span, .. } => *span,
            Statement::Const { span, .. } => *span,
            Statement::If(i) => i.span,
            Statement::While { span, .. } => *span,
            Statement::ForRange { span, .. } => *span,
            Statement::ForCounter { span, .. } => *span,
            Statement::Return { span, .. } => *span,
            Statement::ExternFunc { span, .. } => *span,
            Statement::Func { span, .. } => *span,
            Statement::Struct { span, .. } => *span,
            Statement::Extend { span, .. } => *span,
            Statement::Break { span } => *span,
            Statement::Continue { span } => *span,
        }
    }

    /// Where the statement stands in the source.
    #[verifier::when_used_as_spec(spec_span)]
    pub fn span(&self) -> (r: Span)
        ensures
            r == self.spec_span(),
    {
        match self {
            Statement::Expression { span, .. } => *span,
            Statement::Var { span, .. } => *span,
            Statement::Let { span, .. } => *span,
            Statement::Const { span, .. } => *span,
            Statement::If(i) => i.span,
            Statement::While { span, .. } => *span,
            Statement::ForRange { span, .. } => *span,
            Statement::ForCounter { span, .. } => *span,
            Statement::Return { span, .. } => *span,
            Statement::ExternFunc { span, .. } => *span,
            Statement::Func { span, .. } => *span,
            Statement::Struct { span, .. } => *span,
            Statement::Extend { span, .. } => *span,
            Statement::Break { span } => *span,
            Statement::Continue { span } => *span,
        }
    }

    /// Whether the statement is a declaration (a function, struct, constant,
    /// extern function or extend block), as opposed to code to run.
    pub open spec fn spec_is_declaration(&self) -> bool {
        self is Func || self is Struct || self is Const || self is ExternFunc || self is Extend
    }

    #[verifier::when_used_as_spec(spec_is_declaration)]
    pub fn is_declaration(&self) -> (r: bool)
        ensures
            r == self.spec_is_declaration(),
    {
        matches!(self, Statement::Func { .. } | Statement::Struct { .. } | Statement::Const { .. }
            | Statement::ExternFunc { .. } | Statement::Extend { .. })
    }
}

/// The keyword that names a primitive type.
pub open spec fn spec_primitive_name(p: PrimitiveType) -> Seq<char> {
    match p {
        PrimitiveType::Int => seq!['i', 'n', 't'],
        PrimitiveType::Int8 => seq!['i', 'n', 't', '8'],
        PrimitiveType::Int16 => seq!['i', 'n', 't', '1', '6'],
        PrimitiveType::Int32 => seq!['i', 'n', 't', '3', '2'],
        PrimitiveType::Int64 => seq!['i', 'n', 't', '6', '4'],
        PrimitiveType::Uint => seq!['u', 'i', 'n', 't'],
        PrimitiveType::Uint8 => seq!['u', 'i', 'n', 't', '8'],
        PrimitiveType::Uint16 => seq!['u', 'i', 'n', 't', '1', '6'],
        PrimitiveType::Uint32 => seq!['u', 'i', 'n', 't', '3', '2'],
        PrimitiveType::Uint64 => seq!['u', 'i', 'n', 't', '6', '4'],
        PrimitiveType::Float32 => seq!['f', 'l', 'o', 'a', 't', '3', '2'],
        PrimitiveType::Float64 => seq!['f', 'l', 'o', 'a', 't', '6', '4'],
        PrimitiveType::Bool => seq!['b', 'o', 'o', 'l'],
        PrimitiveType::String => seq!['s', 't', 'r', 'i', 'n', 'g'],
    }
}

pub fn primitive_name(p: PrimitiveType) -> (r: String)
    ensures
        r@ == spec_primitive_name(p),
{
    let s = match p {
        PrimitiveType::Int => "int",
        PrimitiveType::Int8 => "int8",
        PrimitiveType::Int16 => "int16",
        PrimitiveType::Int32 => "int32",
        PrimitiveType::Int64 => "int64",
        PrimitiveType::Uint => "uint",
        PrimitiveType::Uint8 => "uint8",
        PrimitiveType::Uint16 => "uint16",
        PrimitiveType::Uint32 => "uint32",
        PrimitiveType::Uint64 => "uint64",
        PrimitiveType::Float32 => "float32",
        PrimitiveType::Float64 => "float64",
        PrimitiveType::Bool => "bool",
        PrimitiveType::String => "string",
    };
    proof {
        reveal_strlit("int");
        reveal_strlit("int8");
        reveal_strlit("int16");
        reveal_strlit("int32");
        reveal_strlit("int64");
        reveal_strlit("uint");
        reveal_strlit("uint8");
        reveal_strlit("uint16");
        reveal_strlit("uint32");
        reveal_strlit("uint64");
        reveal_strlit("float32");
        reveal_strlit("float64");
        reveal_strlit("bool");
        reveal_strlit("string");
    }
    string_from(s)
}

/// `st` binds the name that the identifier token `tok` holds, at its span.
pub open spec fn binds_name_at(st: Statement, tok: SpannedToken) -> bool {
    tok.token matches Token::Identifier(n) && match st {
        Statement::Var { name, span, .. } => name@ == n@ && span == tok.span,
        Statement::Let { name, span, .. } => name@ == n@ && span == tok.span,
        Statement::Const { name, span, .. } => name@ == n@ && span == tok.span,
        _ => false,
    }
}

/// The rest of an import path after its segments so far, `acc`, from a
/// cursor just after the last segment: each `.name` adds a segment. Gives
/// the whole path and the cursor after it; `None` where a `.` is followed
/// by anything but a name.
#[verifier::opaque]
pub open spec fn path_rest(c: Cursor, acc: Seq<char>) -> Option<(Seq<char>, Cursor)>
    decreases cursor_measure(c),
{
    if c.cur == TokenView::Plain(Token::Dot) {
        match c.peek {
            TokenView::Identifier(m) => {
                let c2 = step(step(c));
                if 0 <= cursor_measure(c2) < cursor_measure(c) {
                    path_rest(c2, acc.push('.') + m)
                } else {
                    None
                }
            },
            _ => None,
        }
    } else {
        Some((acc, c))
    }
}

/// The module paths of a parenthesized list of imports `( a, b.c, ... )`,
/// read from a cursor just after the `(` and any line breaks: one path per
/// item, in order, where each path is names joined by dots, followed by a
/// comma or the closing `)` (line breaks around them allowed). `None` for
/// any other form.
#[verifier::opaque]
pub open spec fn grouped_paths(c: Cursor) -> Option<Seq<Seq<char>>>
    decreases cursor_measure(c),
{
    if c.cur == TokenView::Plain(Token::RightParen) {
        Some(Seq::empty())
    } else {
        match c.cur {
            TokenView::Identifier(n) => match path_rest(step(c), n) {
                Some((module, c1)) => {
                    let c2 = skip_breaks(c1);
                    if c2.cur == TokenView::Plain(Token::RightParen) {
                        Some(seq![module])
                    } else if c2.cur == TokenView::Plain(Token::Comma) {
                        let c3 = skip_breaks(step(c2));
                        if 0 <= cursor_measure(c3) < cursor_measure(c) {
                            match grouped_paths(c3) {
                                Some(rest) => Some(seq![module] + rest),
                                None => None,
                            }
                        } else {
                            None
                        }
                    } else {
                        None
                    }
                },
                None => None,
            },
            _ => None,
        }
    }
}

/// The path an import item starting at `c` reads.
pub open spec fn item_path(c: Cursor) -> Seq<char> {
    path_rest(step(c), c.cur->Identifier_0).unwrap().0
}

/// The cursor after the path of an import item starting at `c`.
pub open spec fn item_end(c: Cursor) -> Cursor {
    path_rest(step(c), c.cur->Identifier_0).unwrap().1
}

/// A list that still reads paths starts with a path of names, followed by a
/// comma or the closing `)`.
#[verifier::spinoff_prover]
proof fn lemma_grouped_item(c: Cursor, names: Seq<Seq<char>>, len: int)
    requires
        0 <= len <= names.len(),
        grouped_paths(c) == Some(names.skip(len)),
        c.cur != TokenView::Plain(Token::RightParen),
    ensures
        c.cur is Identifier,
        path_rest(step(c), c.cur->Identifier_0) is Some,
        skip_breaks(item_end(c)).cur == TokenView::Plain(Token::Comma) || skip_breaks(item_end(c)).cur
            == TokenView::Plain(Token::RightParen),
        len < names.len(),
        names[len] == item_path(c),
{
    reveal(grouped_paths);
    assert(names.skip(len).len() > 0);
    assert(names[len] == names.skip(len)[0]);
}

/// After a path and a comma, the rest of the list reads the remaining paths.
#[verifier::spinoff_prover]
#[verifier::rlimit(40)]
proof fn lemma_grouped_comma(c: Cursor, names: Seq<Seq<char>>, len: int)
    requires
        0 <= len <= names.len(),
        grouped_paths(c) == Some(names.skip(len)),
        c.cur != TokenView::Plain(Token::RightParen),
        skip_breaks(item_end(c)).cur == TokenView::Plain(Token::Comma),
    ensures
        grouped_paths(skip_breaks(step(skip_breaks(item_end(c))))) == Some(names.skip(len + 1)),
{
    lemma_grouped_item(c, names, len);
    let c2 = skip_breaks(item_end(c));
    let c3 = skip_breaks(step(c2));
    let m = item_path(c);
    assert(grouped_paths(c) == (if 0 <= cursor_measure(c3) < cursor_measure(c) {
        match grouped_paths(c3) {
            Some(rest) => Some(seq![m] + rest),
            None => None,
        }
    } else {
        None
    })) by {
        reveal(grouped_paths);
    }
    let rest = grouped_paths(c3).unwrap();
    assert(names.skip(len) == seq![m] + rest);
    assert(names.skip(len + 1) =~= names.skip(len).drop_first());
    assert(names.skip(len).drop_first() =~= rest);
}

/// A path followed by the closing `)` is the last path of the list.
#[verifier::spinoff_prover]
proof fn lemma_grouped_close(c: Cursor, names: Seq<Seq<char>>, len: int)
    requires
        0 <= len <= names.len(),
        grouped_paths(c) == Some(names.skip(len)),
        c.cur != TokenView::Plain(Token::RightParen),
        skip_breaks(item_end(c)).cur == TokenView::Plain(Token::RightParen),
    ensures
        len + 1 == names.len(),
        grouped_paths(skip_breaks(item_end(c))) == Some(names.skip(len + 1)),
{
    lemma_grouped_item(c, names, len);
    reveal(grouped_paths);
    assert(names.skip(len) == seq![item_path(c)]);
    assert(names.skip(len).len() == 1);
    assert(names.skip(len + 1) =~= Seq::<Seq<char>>::empty());
}

/// A list that is at its closing `)` has no path left.
#[verifier::spinoff_prover]
proof fn lemma_grouped_end(c: Cursor, names: Seq<Seq<char>>, len: int)
    requires
        0 <= len <= names.len(),
        grouped_paths(c) == Some(names.skip(len)),
        c.cur == TokenView::Plain(Token::RightParen),
    ensures
        len == names.len(),
{
    reveal(grouped_paths);
    assert(names.skip(len).len() == 0);
}

/// A statement can start with `t`: it neither ends a list of statements
/// nor separates two of them.
pub open spec fn starts_statement(t: Token) -> bool {
    !(t is Newline || t is Semicolon || t is RightBrace || t is Eof)
}

/// The statement that a parser standing at `current` (with `peek` after
/// it) reads has the kind that its first token announces.
pub open spec fn statement_kind_ok(current: SpannedToken, peek: SpannedToken, st: Statement) -> bool {
    match current.token {
        Token::Var => st is Var && binds_name_at(st, peek),
        Token::Let => st is Let && binds_name_at(st, peek),
        Token::Const => st is Const && binds_name_at(st, peek),
        Token::If => st is If,
        Token::While => st is While,
        Token::For => st is ForRange || st is ForCounter || st is While,
        Token::Fun => if peek.token is Identifier {
            st matches Statement::Func { name, .. } && (peek.token matches Token::Identifier(n) && name@ == n@)
        } else {
            st is Expression
        },
        Token::Break => st == Statement::Break { span: current.span },
        Token::Continue => st == Statement::Continue { span: current.span },
        Token::Extern => st is ExternFunc,
        Token::Return => st is Return,
        Token::Struct => st is Struct,
        Token::Extend => st is Extend,
        _ => st is Expression,
    }
}

impl Parser {
    /// Parses one statement. On success the statement's tokens are consumed.
    pub fn parse_statement(&mut self) -> (r: Result<Statement, ParseError>)
        requires
            old(self).wf(),
        ensures
            final(self).frame(old(self)),
            r is Ok ==> final(self).measure() < old(self).measure(),
            old(self).depth == MAX_DEPTH ==> r == Err::<Statement, ParseError>(
                ParseError::TooDeep { span: old(self).current_token.span },
            ) && *final(self) == *old(self),
            r matches Ok(st) ==> stmt_wf(st),
            r matches Ok(st) ==> statement_kind_ok(old(self).current_token, old(self).peek_token, st),
        decreases MAX_DEPTH + 1 - old(self).depth, 0int,
    {
        self.depth = self.depth + 1;
        if self.depth > MAX_DEPTH {
            self.depth = self.depth - 1;
            return Err(ParseError::TooDeep { span: self.current_token.span });
        }
        let result = self.parse_statement_inner();
        self.depth = self.depth - 1;
        result
    }

    /// `var`, `let` or `const` declarations.
    fn parse_binding(&mut self) -> (r: Result<Statement, ParseError>)
        requires
            old(self).wf(),
            old(self).current_token.token is Var || old(self).current_token.token is Let
                || old(self).current_token.token is Const,
        ensures
            final(self).frame(old(self)),
            final(self).measure() < old(self).measure(),
            r matches Ok(st) ==> (old(self).current_token.token is Var ==> st is Var) && (
            old(self).current_token.token is Let ==> st is Let) && (old(self).current_token.token is Const
                ==> st is Const),
            r matches Ok(st) ==> binds_name_at(st, old(self).peek_token),
            r matches Ok(st) ==> stmt_wf(st),
        decreases MAX_DEPTH + 1 - old(self).depth, 1int,
    {
        let kw = self.current_token.token.kind();
        let is_var = matches!(self.current_token.token, Token::Var);
        let is_let = matches!(self.current_token.token, Token::Let);
        self.next_token();
        let name = match &self.current_token.token {
            Token::Identifier(var_name) => var_name.clone(),
            _ => {
                return Err(
                    ParseError::ExpectedIdentifier {
                        context: if is_var {
                            "after 'var'"
                        } else if is_let {
                            "after 'let'"
                        } else {
                            "after 'const'"
                        },
                        found: self.current_token.token.duplicate(),
                        span: self.current_token.span,
                    },
                );
            },
        };
        assert(old(self).peek_token.token matches Token::Identifier(n) && name@ == n@);
        let span = self.current_token.span;
        self.next_token();
        let e = ParseError::ExpectedAssign {
            context: "after variable name",
            found: self.current_token.token.duplicate(),
            span: self.current_token.span,
        };
        self.expect(Token::Assign, e)?;
        let value = self.parse_expression(Precedence::Lowest)?;
        self.next_token();
        if is_var {
            Ok(Statement::Var { name, value, span })
        } else if is_let {
            Ok(Statement::Let { name, value, span })
        } else {
            Ok(Statement::Const { name, value, span })
        }
    }

    /// `return` with an optional value.
    fn parse_return(&mut self) -> (r: Result<Statement, ParseError>)
        requires
            old(self).wf(),
            old(self).current_token.token is Return,
        ensures
            final(self).frame(old(self)),
            final(self).measure() < old(self).measure(),
            r matches Ok(st) ==> st is Return,
            r matches Ok(st) ==> stmt_wf(st),
        decreases MAX_DEPTH + 1 - old(self).depth, 1int,
    {
        let span = self.current_token.span;
        self.next_token();
        let value = match self.parse_expression(Precedence::Lowest) {
            Ok(expr) => {
                if !matches!(self.current_token.token, Token::RightBrace | Token::Eof) {
                    self.next_token();
                }
                expr
            },
            Err(e) => {
                if matches!(self.current_token.token, Token::Newline | Token::Eof | Token::RightBrace) {
                    return Ok(Statement::Return { value: None, span });
                }
                return Err(e);
            },
        };
        Ok(Statement::Return { value: Some(value), span })
    }

    /// An expression used as a statement.
    fn parse_expression_statement(&mut self) -> (r: Result<Statement, ParseError>)
        requires
            old(self).wf(),
        ensures
            final(self).frame(old(self)),
            r is Ok ==> final(self).measure() < old(self).measure(),
            r matches Ok(st) ==> st is Expression,
            r matches Ok(st) ==> stmt_wf(st),
        decreases MAX_DEPTH + 1 - old(self).depth, 1int,
    {
        let span = self.current_token.span;
        let ghost start = *self;
        let expr = self.parse_expression(Precedence::Lowest)?;
        let ghost mid = *self;
        self.next_token();
        proof {
            if mid.current_token.token is Eof {
                mid.lemma_reaching_eof(&start);
            }
        }
        Ok(Statement::Expression { expression: expr, span })
    }

    fn parse_statement_inner(&mut self) -> (r: Result<Statement, ParseError>)
        requires
            old(self).wf(),
            old(self).depth >= 1,
        ensures
            final(self).frame(old(self)),
            r is Ok ==> final(self).measure() < old(self).measure(),
            r matches Ok(st) ==> stmt_wf(st),
            r matches Ok(st) ==> statement_kind_ok(old(self).current_token, old(self).peek_token, st),
        decreases MAX_DEPTH + 1 - old(self).depth, 10int,
    {
        let span = self.current_token.span;
        if matches!(self.current_token.token, Token::Var | Token::Let | Token::Const) {
            self.parse_binding()
        } else if matches!(self.current_token.token, Token::If) {
            self.parse_if_statement()
        } else if matches!(self.current_token.token, Token::While) {
            self.parse_while_statement()
        } else if matches!(self.current_token.token, Token::For) {
            self.parse_for_statement()
        } else if matches!(self.current_token.token, Token::Fun) && matches!(self.peek_token.token, Token::Identifier(_)) {
            self.parse_function()
        } else if matches!(self.current_token.token, Token::Break) {
            self.next_token();
            Ok(Statement::Break { span })
        } else if matches!(self.current_token.token, Token::Continue) {
            self.next_token();
            Ok(Statement::Continue { span })
        } else if matches!(self.current_token.token, Token::Extern) {
            self.parse_extern()
        } else if matches!(self.current_token.token, Token::Return) {
            self.parse_return()
        } else if matches!(self.current_token.token, Token::Struct) {
            self.parse_struct()
        } else if matches!(self.current_token.token, Token::Extend) {
            self.parse_extend()
        } else {
            self.parse_expression_statement()
        }
    }

    /// `if cond { ... } else if cond { ... } else { ... }`.
    #[verifier::rlimit(30)]
    pub fn parse_if_statement(&mut self) -> (r: Result<Statement, ParseError>)
        requires
            old(self).wf(),
        ensures
            final(self).frame(old(self)),
            r is Ok ==> final(self).measure() < old(self).measure(),
            r matches Ok(st) ==> st is If,
            !(old(self).current_token.token is If) ==> r == Err::<Statement, ParseError>(
                spec_unexpected(&old(self).current_token),
            ),
            r matches Ok(st) ==> stmt_wf(st),
        decreases MAX_DEPTH + 1 - old(self).depth, 5int,
    {
        let span = self.current_token.span;
        let e = self.unexpected(&self.current_token);
        self.expect(Token::If, e)?;
        let saved = self.allowed_struct_literal;
        self.allowed_struct_literal = false;
        let condition = self.parse_expression(Precedence::Lowest)?;
        self.allowed_struct_literal = saved;
        self.next_token();
        let e = self.unexpected(&self.current_token);
        self.expect(Token::LeftBrace, e)?;
        let (then_block, _) = self.parse_block()?;
        let mut else_if: Vec<ElseIf> = Vec::new();
        let mut else_block: Vec<Statement> = Vec::new();
        proof {
            lemma_stmts_wf(else_block@);
        }
        while matches!(self.current_token.token, Token::Else)
            invariant
                self.frame(old(self)),
                self.measure() < old(self).measure(),
                old(self).current_token.token is If,
                forall|k: int| 0 <= k < else_if.len() ==> expr_wf((#[trigger] else_if@[k]).condition) && stmts_wf(
                    else_if@[k].block@,
                ),
                stmts_wf(else_block@),
            decreases self.measure(),
        {
            let e = self.unexpected(&self.current_token);
            self.expect(Token::Else, e)?;
            if matches!(self.current_token.token, Token::If) {
                let else_if_stmt = self.parse_else_if_statement()?;
                else_if.push(else_if_stmt);
            } else if matches!(self.current_token.token, Token::LeftBrace) {
                self.next_token();
                let (b, _) = self.parse_block()?;
                else_block = b;
                break;
            } else {
                return Err(
                    ParseError::InvalidElseBranch {
                        found: self.current_token.token.duplicate(),
                        span: self.current_token.span,
                    },
                );
            }
        }
        proof {
            lemma_else_ifs_wf(else_if@);
        }
        Ok(Statement::If(IfStatement { condition, then_block, else_if, else_block, span }))
    }

    /// `if cond { ... }` after an `else`.
    pub fn parse_else_if_statement(&mut self) -> (r: Result<ElseIf, ParseError>)
        requires
            old(self).wf(),
        ensures
            final(self).frame(old(self)),
            r is Ok ==> final(self).measure() < old(self).measure(),
            !(old(self).current_token.token is If) ==> r == Err::<ElseIf, ParseError>(
                spec_unexpected(&old(self).current_token),
            ),
            r matches Ok(ei) ==> expr_wf(ei.condition) && stmts_wf(ei.block@),
        decreases MAX_DEPTH + 1 - old(self).depth, 4int,
    {
        let span = self.current_token.span;
        let e = self.unexpected(&self.current_token);
        self.expect(Token::If, e)?;
        let saved = self.allowed_struct_literal;
        self.allowed_struct_literal = false;
        let condition = self.parse_expression(Precedence::Lowest)?;
        self.allowed_struct_literal = saved;
        self.next_token();
        let e = self.unexpected(&self.current_token);
        self.expect(Token::LeftBrace, e)?;
        let (block, _) = self.parse_block()?;
        Ok(ElseIf { condition, block, span })
    }

    /// `for x in iterable { ... }`, `for i = init; cond; post { ... }`, or
    /// `for cond { ... }`, a loop that runs while the condition holds.
    pub fn parse_for_statement(&mut self) -> (r: Result<Statement, ParseError>)
        requires
            old(self).wf(),
        ensures
            final(self).frame(old(self)),
            r is Ok ==> final(self).measure() < old(self).measure(),
            r matches Ok(st) ==> st is ForRange || st is ForCounter || st is While,
            r matches Ok(st) ==> stmt_wf(st),
        decreases MAX_DEPTH + 1 - old(self).depth, 5int,
    {
        let e = self.unexpected(&self.current_token);
        self.expect(Token::For, e)?;
        let var = match &self.current_token.token {
            Token::Identifier(v) => v.clone(),
            _ => {
                return self.parse_for_condition();
            },
        };
        if matches!(self.peek_token.token, Token::In) {
            self.next_token();
            let e = self.unexpected(&self.current_token);
            self.expect(Token::In, e)?;
            self.parse_for_range(var.as_str())
        } else if matches!(self.peek_token.token, Token::Assign) {
            self.parse_for_counter(var.as_str())
        } else {
            self.parse_for_condition()
        }
    }

    /// The rest of `for cond { ... }` after `for`: a loop that runs while
    /// the condition holds.
    pub fn parse_for_condition(&mut self) -> (r: Result<Statement, ParseError>)
        requires
            old(self).wf(),
        ensures
            final(self).frame(old(self)),
            r is Ok ==> final(self).measure() < old(self).measure(),
            r matches Ok(st) ==> st is While,
            r matches Ok(st) ==> stmt_wf(st),
        decreases MAX_DEPTH + 1 - old(self).depth, 4int,
    {
        let span = self.current_token.span;
        let saved = self.allowed_struct_literal;
        self.allowed_struct_literal = false;
        let condition = self.parse_expression(Precedence::Lowest)?;
        self.allowed_struct_literal = saved;
        self.next_token();
        self.skip_terminators();
        let e = self.unexpected(&self.current_token);
        self.expect(Token::LeftBrace, e)?;
        let (body, _) = self.parse_block()?;
        Ok(Statement::While { condition, body, span })
    }

    /// The rest of `for var in iterable { ... }` after `in`.
    pub fn parse_for_range(&mut self, var: &str) -> (r: Result<Statement, ParseError>)
        requires
            old(self).wf(),
        ensures
            final(self).frame(old(self)),
            r is Ok ==> final(self).measure() < old(self).measure(),
            r matches Ok(st) ==> st matches Statement::ForRange { variable, .. } && variable@ == var@,
            r matches Ok(st) ==> stmt_wf(st),
        decreases MAX_DEPTH + 1 - old(self).depth, 4int,
    {
        let span = self.current_token.span;
        let variable = var.to_owned();
        let saved = self.allowed_struct_literal;
        self.allowed_struct_literal = false;
        let iterable = self.parse_expression(Precedence::Lowest)?;
        self.allowed_struct_literal = saved;
        let ghost mid = *self;
        self.next_token();
        self.skip_terminators();
        let e = self.unexpected(&self.current_token);
        self.expect(Token::LeftBrace, e)?;
        self.skip_terminators();
        let (body, _) = self.parse_block()?;
        Ok(Statement::ForRange { variable, iterable, body, span })
    }

    /// The rest of `for var = init; cond; post { ... }`; the current token is `var`.
    #[verifier::rlimit(30)]
    pub fn parse_for_counter(&mut self, var: &str) -> (r: Result<Statement, ParseError>)
        requires
            old(self).wf(),
        ensures
            final(self).frame(old(self)),
            r is Ok ==> final(self).measure() < old(self).measure(),
            r matches Ok(st) ==> st is ForCounter,
            r matches Ok(st) ==> stmt_wf(st),
        decreases MAX_DEPTH + 1 - old(self).depth, 4int,
    {
        let span = self.current_token.span;
        let name = var.to_owned();
        self.next_token();
        let e = ParseError::ExpectedAssign {
            context: "in 'for' counter initializer",
            found: self.current_token.token.duplicate(),
            span: self.current_token.span,
        };
        self.expect(Token::Assign, e)?;
        let saved = self.allowed_struct_literal;
        self.allowed_struct_literal = false;
        let value = self.parse_expression(Precedence::Lowest)?;
        self.allowed_struct_literal = saved;
        let init = Box::new(Statement::Let { name, value, span });
        assert(stmt_wf(*init));
        self.next_token();
        let e = self.unexpected(&self.current_token);
        self.expect(Token::Semicolon, e)?;
        let saved = self.allowed_struct_literal;
        self.allowed_struct_literal = false;
        let condition = self.parse_expression(Precedence::Lowest)?;
        self.allowed_struct_literal = saved;
        self.next_token();
        let e = self.unexpected(&self.current_token);
        self.expect(Token::Semicolon, e)?;
        let saved = self.allowed_struct_literal;
        self.allowed_struct_literal = false;
        let post = self.parse_expression(Precedence::Lowest)?;
        self.allowed_struct_literal = saved;
        self.next_token();
        self.skip_terminators();
        let e = self.unexpected(&self.current_token);
        self.expect(Token::LeftBrace, e)?;
        let (body, _) = self.parse_block()?;
        Ok(Statement::ForCounter { init, condition, post, body, span })
    }

    /// `while cond { ... }`.
    pub fn parse_while_statement(&mut self) -> (r: Result<Statement, ParseError>)
        requires
            old(self).wf(),
        ensures
            final(self).frame(old(self)),
            r is Ok ==> final(self).measure() < old(self).measure(),
            r matches Ok(st) ==> st is While,
            r matches Ok(st) ==> stmt_wf(st),
        decreases MAX_DEPTH + 1 - old(self).depth, 4int,
    {
        let e = self.unexpected(&self.current_token);
        self.expect(Token::While, e)?;
        let span = self.current_token.span;
        let saved = self.allowed_struct_literal;
        self.allowed_struct_literal = false;
        let condition = self.parse_expression(Precedence::Lowest)?;
        self.allowed_struct_literal = saved;
        self.next_token();
        let e = self.unexpected(&self.current_token);
        self.expect(Token::LeftBrace, e)?;
        let (body, _) = self.parse_block()?;
        Ok(Statement::While { condition, body, span })
    }

    /// `[T]` after a parameter list: the declared return type.
    fn parse_return_type(&mut self) -> (r: Result<Type, ParseError>)
        requires
            old(self).wf(),
            old(self).current_token.token is LeftBracket,
        ensures
            final(self).frame(old(self)),
            final(self).measure() < old(self).measure(),
            r matches Ok(t) ==> type_wf(t),
        decreases MAX_DEPTH + 1 - old(self).depth, 1int,
    {
        let open_bracket_tok = self.current_token.token.duplicate();
        let open_bracket_span = self.current_token.span;
        self.next_token();
        let ty = self.parse_type()?;
        let e = ParseError::UnclosedDelimiter {
            open_token: open_bracket_tok,
            open_span: open_bracket_span,
            expected_token: Token::RightBracket,
            found_tok: self.current_token.token.duplicate(),
            found_span: self.current_token.span,
        };
        self.expect(Token::RightBracket, e)?;
        Ok(ty)
    }

    /// `fun name(params) [ret] { body }`.
    pub fn parse_function(&mut self) -> (r: Result<Statement, ParseError>)
        requires
            old(self).wf(),
        ensures
            final(self).frame(old(self)),
            r is Ok ==> final(self).measure() < old(self).measure(),
            r matches Ok(st) ==> (st matches Statement::Func { name, span, .. } && (old(
                self,
            ).peek_token.token matches Token::Identifier(n) && name@ == n@) && span.start == old(
                self,
            ).current_token.span.start),
            r matches Ok(st) ==> stmt_wf(st),
            !(old(self).current_token.token is Fun) ==> r == Err::<Statement, ParseError>(
                spec_unexpected(&old(self).current_token),
            ),
            old(self).current_token.token is Fun && !(old(self).peek_token.token is Identifier) ==> r == Err::<
                Statement,
                ParseError,
            >(
                ParseError::ExpectedIdentifier {
                    context: "after 'func'",
                    found: old(self).peek_token.token,
                    span: old(self).peek_token.span,
                },
            ),
        decreases MAX_DEPTH + 1 - old(self).depth, 4int,
    {
        let mut span = self.current_token.span;
        let e = self.unexpected(&self.current_token);
        proof {
            if !(self.current_token.token is Fun) {
                assert(self.current_token.token.spec_kind() != Token::Fun.spec_kind());
            }
        }
        self.expect(Token::Fun, e)?;
        assert(old(self).current_token.token is Fun);
        let name = match &self.current_token.token {
            Token::Identifier(fun_name) => fun_name.clone(),
            _ => {
                return Err(
                    ParseError::ExpectedIdentifier {
                        context: "after 'func'",
                        found: self.current_token.token.duplicate(),
                        span: self.current_token.span,
                    },
                );
            },
        };
        self.next_token();
        let open_paren_tok = self.current_token.token.duplicate();
        let open_paren_span = self.current_token.span;
        let e = self.unexpected(&self.current_token);
        self.expect(Token::LeftParen, e)?;
        let params = self.parse_func_params()?;
        span = span.merge(&self.current_token.span);
        let e = ParseError::UnclosedDelimiter {
            open_token: open_paren_tok,
            open_span: open_paren_span,
            expected_token: Token::RightParen,
            found_tok: self.current_token.token.duplicate(),
            found_span: self.current_token.span,
        };
        self.expect(Token::RightParen, e)?;
        let return_type = if matches!(self.current_token.token, Token::LeftBrace) {
            None
        } else if matches!(self.current_token.token, Token::LeftBracket) {
            let ty = self.parse_return_type()?;
            Some(ty)
        } else {
            return Err(self.unexpected(&self.current_token));
        };
        let e = self.unexpected(&self.current_token);
        self.expect(Token::LeftBrace, e)?;
        let (body, ending_span) = self.parse_block()?;
        Ok(Statement::Func { name, params, return_type, body, span, ending_span })
    }

    /// `extern fun name(params) [ret]`.
    pub fn parse_extern(&mut self) -> (r: Result<Statement, ParseError>)
        requires
            old(self).wf(),
        ensures
            final(self).frame(old(self)),
            r is Ok ==> final(self).measure() < old(self).measure(),
            r matches Ok(st) ==> st is ExternFunc,
            r matches Ok(st) ==> stmt_wf(st),
        decreases MAX_DEPTH + 1 - old(self).depth, 2int,
    {
        let mut span = self.current_token.span;
        let e = self.unexpected(&self.current_token);
        self.expect(Token::Extern, e)?;
        let e = self.unexpected(&self.current_token);
        self.expect(Token::Fun, e)?;
        let name = match &self.current_token.token {
            Token::Identifier(fun_name) => fun_name.clone(),
            _ => {
                return Err(
                    ParseError::ExpectedIdentifier {
                        context: "after 'extern func'",
                        found: self.current_token.token.duplicate(),
                        span: self.current_token.span,
                    },
                );
            },
        };
        self.next_token();
        let open_paren_tok = self.current_token.token.duplicate();
        let open_paren_span = self.current_token.span;
        let e = self.unexpected(&self.current_token);
        self.expect(Token::LeftParen, e)?;
        let params = self.parse_func_params()?;
        span = span.merge(&self.current_token.span);
        let e = ParseError::UnclosedDelimiter {
            open_token: open_paren_tok,
            open_span: open_paren_span,
            expected_token: Token::RightParen,
            found_tok: self.current_token.token.duplicate(),
            found_span: self.current_token.span,
        };
        self.expect(Token::RightParen, e)?;
        let return_type = if matches!(self.current_token.token, Token::LeftBracket) {
            let ty = self.parse_return_type()?;
            Some(ty)
        } else {
            None
        };
        Ok(Statement::ExternFunc { name, params, return_type, span })
    }

    /// `struct Name { field: Type, ... }`.
    #[verifier::rlimit(30)]
    pub fn parse_struct(&mut self) -> (r: Result<Statement, ParseError>)
        requires
            old(self).wf(),
        ensures
            final(self).frame(old(self)),
            r is Ok ==> final(self).measure() < old(self).measure(),
            r matches Ok(st) ==> st is Struct,
            r matches Ok(st) ==> stmt_wf(st),
        decreases MAX_DEPTH + 1 - old(self).depth, 2int,
    {
        let e = self.unexpected(&self.current_token);
        self.expect(Token::Struct, e)?;
        let span = self.current_token.span;
        let name = match &self.current_token.token {
            Token::Identifier(struct_name) => struct_name.clone(),
            _ => {
                return Err(
                    ParseError::ExpectedIdentifier {
                        context: "after 'struct'",
                        found: self.current_token.token.duplicate(),
                        span: self.current_token.span,
                    },
                );
            },
        };
        self.next_token();
        let open_brace_tok = self.current_token.token.duplicate();
        let open_brace_span = self.current_token.span;
        let e = self.unexpected(&self.current_token);
        self.expect(Token::LeftBrace, e)?;
        self.skip_terminators();
        let mut fields: Vec<FuncParam> = Vec::new();
        while !matches!(self.current_token.token, Token::RightBrace)
            invariant
                self.frame(old(self)),
                self.measure() < old(self).measure(),
                forall|k: int| 0 <= k < fields.len() ==> type_wf(#[trigger] fields@[k].param_type),
            decreases self.measure(),
        {
            let ghost before = *self;
            let field_name = match &self.current_token.token {
                Token::Identifier(n) => n.clone(),
                _ => {
                    return Err(
                        ParseError::ExpectedIdentifier {
                            context: "in struct field name",
                            found: self.current_token.token.duplicate(),
                            span: self.current_token.span,
                        },
                    );
                },
            };
            self.next_token();
            let e = self.unexpected(&self.current_token);
            self.expect(Token::Colon, e)?;
            let field_type = self.parse_type()?;
            fields.push(
                FuncParam { name: field_name, param_type: field_type, span, kind: BindingKind::Var, is_ref: false },
            );
            if matches!(self.current_token.token, Token::Comma) {
                let e = self.unexpected(&self.current_token);
                self.expect(Token::Comma, e)?;
            } else if matches!(self.current_token.token, Token::Newline) {
                self.skip_terminators();
                continue;
            } else if matches!(self.current_token.token, Token::RightBrace) {
                break;
            } else {
                return Err(self.unexpected(&self.current_token));
            }
            self.skip_terminators();
        }
        let e = ParseError::UnclosedDelimiter {
            open_token: open_brace_tok,
            open_span: open_brace_span,
            expected_token: Token::RightBrace,
            found_tok: self.current_token.token.duplicate(),
            found_span: self.current_token.span,
        };
        self.expect(Token::RightBrace, e)?;
        proof {
            lemma_params_wf(fields@);
        }
        Ok(Statement::Struct { name, fields, span })
    }

    /// A name of a package or import path segment: an identifier or a primitive type keyword.
    fn path_segment(&self) -> (r: Option<String>)
        ensures
            r is Some <==> (self.current_token.token is Identifier || self.current_token.token is PrimitiveType),
            self.current_token.token matches Token::Identifier(n) ==> (r matches Some(v) && v@ == n@),
    {
        match &self.current_token.token {
            Token::Identifier(n) => Some(n.clone()),
            Token::PrimitiveType(t) => Some(primitive_name(*t)),
            _ => None,
        }
    }

    /// `package name`; the name is left as the current token.
    pub fn parse_package(&mut self) -> (r: Result<String, ParseError>)
        requires
            old(self).wf(),
        ensures
            final(self).frame(old(self)),
            final(self).paren_depth == old(self).paren_depth,
            r is Ok ==> final(self).measure() < old(self).measure(),
            r is Ok ==> (final(self).current_token.token is Identifier || final(self).current_token.token is PrimitiveType),
    {
        self.skip_terminators();
        let e = self.unexpected(&self.current_token);
        self.expect(Token::Package, e)?;
        match self.path_segment() {
            Some(name) => Ok(name),
            None => Err(
                ParseError::ExpectedIdentifier {
                    context: "after 'package'",
                    found: self.current_token.token.duplicate(),
                    span: self.current_token.span,
                },
            ),
        }
    }

    /// `import path` or `import ( path, ... )`.
    #[verifier::spinoff_prover]
    #[verifier::rlimit(100)]
    pub fn parse_imports(&mut self) -> (r: Result<Vec<ImportItem>, ParseError>)
        requires
            old(self).wf(),
        ensures
            final(self).frame(old(self)),
            r is Ok ==> final(self).measure() < old(self).measure(),
            !(old(self).current_token.token is Import) ==> r == Err::<Vec<ImportItem>, ParseError>(
                spec_unexpected(&old(self).current_token),
            ),
            old(self).current_token.token is Import && !(old(self).peek_token.token is LeftParen) ==> (r matches Ok(
                items,
            ) ==> items@.len() == 1 && items@[0].span == old(self).peek_token.span && (old(
                self,
            ).peek_token.token matches Token::Identifier(n) ==> n@.len() <= items@[0].module@.len()
                && items@[0].module@.take(n@.len() as int) == n@)),
            old(self).current_token.token is Import && old(self).peek_token.token is LeftParen ==> match grouped_paths(
                skip_breaks(step(step(old(self).cursor()))),
            ) {
                Some(names) => r matches Ok(items) && items@.len() == names.len() && forall|k: int|
                    0 <= k < names.len() ==> #[trigger] items@[k].module@ == names[k],
                None => true,
            },
    {
        let e = self.unexpected(&self.current_token);
        proof {
            if !(self.current_token.token is Import) {
                assert(self.current_token.token.spec_kind() != Token::Import.spec_kind());
            }
        }
        self.expect(Token::Import, e)?;
        assert(old(self).current_token.token is Import);
        let mut packages: Vec<ImportItem> = Vec::new();
        if matches!(self.current_token.token, Token::LeftParen) {
            let open_paren_tok = self.current_token.token.duplicate();
            let open_paren_span = self.current_token.span;
            let e = self.unexpected(&self.current_token);
            self.expect(Token::LeftParen, e)?;
            self.skip_terminators();
            let ghost gp = grouped_paths(self.cursor());
            assert(gp == grouped_paths(skip_breaks(step(step(old(self).cursor())))));
            while !matches!(self.current_token.token, Token::RightParen)
                invariant
                    self.frame(old(self)),
                    self.measure() < old(self).measure(),
                    old(self).current_token.token is Import,
                    old(self).peek_token.token is LeftParen,
                    gp == grouped_paths(skip_breaks(step(step(old(self).cursor())))),
                    gp is Some ==> packages@.len() <= gp.unwrap().len() && grouped_paths(self.cursor()) == Some(
                        gp.unwrap().skip(packages@.len() as int),
                    ) && forall|k: int| 0 <= k < packages@.len() ==> #[trigger] packages@[k].module@ == gp.unwrap()[k],
                ensures
                    self.frame(old(self)),
                    self.measure() < old(self).measure(),
                    self.current_token.token is RightParen,
                    gp is Some ==> packages@.len() <= gp.unwrap().len() && grouped_paths(self.cursor()) == Some(
                        gp.unwrap().skip(packages@.len() as int),
                    ) && forall|k: int| 0 <= k < packages@.len() ==> #[trigger] packages@[k].module@ == gp.unwrap()[k],
                decreases self.measure(),
            {
                let ghost c = self.cursor();
                let ghost len = packages@.len() as int;
                proof {
                    if gp is Some {
                        assert(c.cur != TokenView::Plain(Token::RightParen));
                        lemma_grouped_item(c, gp.unwrap(), len);
                        assert(self.current_token.token is Identifier);
                    }
                }
                let item = self.parse_single_import_item()?;
                packages.push(item);
                self.skip_terminators();
                let ghost c2 = self.cursor();
                proof {
                    if gp is Some {
                        assert(c2 == skip_breaks(item_end(c)));
                        assert(packages@[len].module@ == gp.unwrap()[len]);
                    }
                }
                if matches!(self.current_token.token, Token::Comma) {
                    let e = self.unexpected(&self.current_token);
                    self.expect(Token::Comma, e)?;
                } else if matches!(self.current_token.token, Token::Newline) {
                    self.skip_terminators();
                    continue;
                } else if matches!(self.current_token.token, Token::RightParen) {
                    proof {
                        if gp is Some {
                            lemma_grouped_close(c, gp.unwrap(), len);
                        }
                    }
                    break;
                } else {
                    proof {
                        if gp is Some {
                            assert(c2.cur != TokenView::Plain(Token::Comma));
                            assert(c2.cur != TokenView::Plain(Token::RightParen));
                        }
                    }
                    return Err(self.unexpected(&self.current_token));
                }
                self.skip_terminators();
                proof {
                    if gp is Some {
                        lemma_grouped_comma(c, gp.unwrap(), len);
                    }
                }
            }
            proof {
                if gp is Some {
                    lemma_grouped_end(self.cursor(), gp.unwrap(), packages@.len() as int);
                }
            }
            let e = ParseError::UnclosedDelimiter {
                open_token: open_paren_tok,
                open_span: open_paren_span,
                expected_token: Token::RightParen,
                found_tok: self.current_token.token.duplicate(),
                found_span: self.current_token.span,
            };
            self.expect(Token::RightParen, e)?;
        } else {
            let item = self.parse_single_import_item()?;
            packages.push(item);
            self.skip_terminators();
        }
        Ok(packages)
    }

    /// `extend Type { fun ... }`: methods added to a type.
    #[verifier::rlimit(30)]
    pub fn parse_extend(&mut self) -> (r: Result<Statement, ParseError>)
        requires
            old(self).wf(),
        ensures
            final(self).frame(old(self)),
            r is Ok ==> final(self).measure() < old(self).measure(),
            r matches Ok(st) ==> st matches Statement::Extend { methods, .. } && forall|i: int|
                0 <= i < methods@.len() ==> #[trigger] methods@[i] is Func,
            r matches Ok(st) ==> stmt_wf(st),
        decreases MAX_DEPTH + 1 - old(self).depth, 1int,
    {
        let start_span = self.current_token.span;
        let e = self.unexpected(&self.current_token);
        self.expect(Token::Extend, e)?;
        let target = self.parse_type()?;
        self.skip_terminators();
        let end_span = self.current_token.span;
        let open_brace_tok = self.current_token.token.duplicate();
        let open_brace_span = self.current_token.span;
        let e = self.unexpected(&self.current_token);
        self.expect(Token::LeftBrace, e)?;
        self.skip_terminators();
        let mut methods: Vec<Statement> = Vec::new();
        while !matches!(self.current_token.token, Token::RightBrace | Token::Eof)
            invariant
                self.frame(old(self)),
                self.measure() < old(self).measure(),
                forall|i: int| 0 <= i < methods@.len() ==> #[trigger] methods@[i] is Func,
                forall|i: int| 0 <= i < methods@.len() ==> stmt_wf(#[trigger] methods@[i]),
            decreases self.measure(),
        {
            let method = self.parse_statement()?;
            if matches!(method, Statement::Func { .. }) {
                methods.push(method);
                self.skip_terminators();
            } else {
                return Err(
                    ParseError::InvalidSyntaxInExtend {
                        found: self.current_token.token.duplicate(),
                        span: self.current_token.span,
                    },
                );
            }
        }
        let e = ParseError::UnclosedDelimiter {
            open_token: open_brace_tok,
            open_span: open_brace_span,
            expected_token: Token::RightBrace,
            found_tok: self.current_token.token.duplicate(),
            found_span: self.current_token.span,
        };
        self.expect(Token::RightBrace, e)?;
        proof {
            lemma_stmts_wf(methods@);
        }
        Ok(Statement::Extend { target, methods, span: start_span.merge(&end_span) })
    }

    /// Statements up to a closing `}` or the end of the input.
    fn parse_statements(&mut self) -> (r: Result<Vec<Statement>, ParseError>)
        requires
            old(self).wf(),
        ensures
            final(self).frame(old(self)),
            r is Ok ==> final(self).current_token.token is RightBrace || final(self).current_token.token is Eof,
            r matches Ok(v) ==> stmts_wf(v@),
            old(self).current_token.token is RightBrace || old(self).current_token.token is Eof ==> (r matches Ok(v)
                && v@.len() == 0 && *final(self) == *old(self)),
            starts_statement(old(self).current_token.token) ==> (r matches Ok(v) ==> v@.len() > 0 && statement_kind_ok(
                old(self).current_token,
                old(self).peek_token,
                v@[0],
            )),
        decreases MAX_DEPTH + 1 - old(self).depth, 2int,
    {
        let mut statements: Vec<Statement> = Vec::new();
        self.skip_terminators();
        while !matches!(self.current_token.token, Token::RightBrace | Token::Eof)
            invariant
                self.frame(old(self)),
                forall|i: int| 0 <= i < statements@.len() ==> stmt_wf(#[trigger] statements@[i]),
                statements@.len() == 0 && starts_statement(old(self).current_token.token) ==> *self == *old(self),
                statements@.len() > 0 && starts_statement(old(self).current_token.token) ==> statement_kind_ok(
                    old(self).current_token,
                    old(self).peek_token,
                    statements@[0],
                ),
                old(self).current_token.token is RightBrace || old(self).current_token.token is Eof ==> *self == *old(
                    self,
                ) && statements@.len() == 0,
            decreases self.measure(),
        {
            let stmt = self.parse_statement()?;
            statements.push(stmt);
            self.skip_terminators();
        }
        proof {
            lemma_stmts_wf(statements@);
        }
        Ok(statements)
    }

    /// The statements of a block up to its closing `}`, which is consumed;
    /// returns them with the span of the `}`.
    pub fn parse_block(&mut self) -> (r: Result<(Vec<Statement>, Span), ParseError>)
        requires
            old(self).wf(),
        ensures
            final(self).frame(old(self)),
            r is Ok ==> final(self).measure() < old(self).measure(),
            r matches Ok(b) ==> stmts_wf(b.0@),
        decreases MAX_DEPTH + 1 - old(self).depth, 3int,
    {
        let saved = self.allowed_struct_literal;
        self.allowed_struct_literal = true;
        let statements = self.parse_statements()?;
        self.allowed_struct_literal = saved;
        if !matches!(self.current_token.token, Token::RightBrace) {
            return Err(ParseError::UnexpectedEof { expected: "closing brace '}'", span: self.current_token.span });
        }
        let end_span = self.current_token.span;
        self.next_token();
        Ok((statements, end_span))
    }

    /// All the statements up to the end of the input (or a stray `}`).
    pub fn parse_top_level(&mut self) -> (r: Result<Vec<Statement>, ParseError>)
        requires
            old(self).wf(),
        ensures
            final(self).frame(old(self)),
            r matches Ok(v) ==> stmts_wf(v@),
            old(self).current_token.token is RightBrace || old(self).current_token.token is Eof ==> (r matches Ok(v)
                && v@.len() == 0 && *final(self) == *old(self)),
            starts_statement(old(self).current_token.token) ==> (r matches Ok(v) ==> v@.len() > 0 && statement_kind_ok(
                old(self).current_token,
                old(self).peek_token,
                v@[0],
            )),
    {
        self.parse_statements()
    }

    /// One import path, with an optional list of symbols: `a.b` or `a.b.{x, y}`.
    #[verifier::spinoff_prover]
    #[verifier::rlimit(60)]
    fn parse_single_import_item(&mut self) -> (r: Result<ImportItem, ParseError>)
        requires
            old(self).wf(),
        ensures
            final(self).frame(old(self)),
            r is Ok ==> final(self).measure() < old(self).measure(),
            r matches Ok(item) ==> item.span == old(self).current_token.span,
            !(old(self).current_token.token is Identifier || old(self).current_token.token is PrimitiveType) ==> r
                == Err::<ImportItem, ParseError>(
                ParseError::ExpectedIdentifier {
                    context: "in import path",
                    found: old(self).current_token.token,
                    span: old(self).current_token.span,
                },
            ),
            old(self).current_token.token matches Token::Identifier(n) ==> (r matches Ok(item) ==> n@.len()
                <= item.module@.len() && item.module@.take(n@.len() as int) == n@),
            old(self).current_token.token matches Token::Identifier(n) ==> (!(old(self).peek_token.token is Dot) ==> (
            r matches Ok(item) && item.module@ == n@ && item.symbols@.len() == 0)),
            old(self).current_token.token matches Token::Identifier(n) ==> (path_rest(step(old(self).cursor()), n@) matches Some(
                (module, c1),
            ) ==> r matches Ok(item) && item.module@ == module && item.symbols@.len() == 0 && final(self).cursor() == c1),
    {
        let span = self.current_token.span;
        let first_seg = match self.path_segment() {
            Some(v) => v,
            None => {
                return Err(
                    ParseError::ExpectedIdentifier {
                        context: "in import path",
                        found: self.current_token.token.duplicate(),
                        span: self.current_token.span,
                    },
                );
            },
        };
        let ghost first = first_seg@;
        self.next_token();
        let ghost s1 = *self;
        let mut path_text = first_seg;
        let mut symbols: Vec<String> = Vec::new();
        while matches!(self.current_token.token, Token::Dot) && matches!(self.peek_token.token, Token::Identifier(_)
            | Token::PrimitiveType(_))
            invariant
                self.frame(old(self)),
                self.measure() < old(self).measure(),
                first.len() <= path_text@.len(),
                path_text@.take(first.len() as int) == first,
                symbols@.len() == 0,
                old(self).current_token.token is Identifier || old(self).current_token.token is PrimitiveType,
                s1.current_token == old(self).peek_token,
                !(old(self).peek_token.token is Dot) ==> *self == s1 && path_text@ == first,
                s1.cursor() == step(old(self).cursor()),
                old(self).current_token.token is Identifier && path_rest(s1.cursor(), first) is Some ==> path_rest(
                    self.cursor(),
                    path_text@,
                ) == path_rest(s1.cursor(), first),
            decreases self.measure(),
        {
            let ghost c = self.cursor();
            let ghost acc = path_text@;
            proof {
                self.lemma_cursor_measure();
            }
            let e = self.unexpected(&self.current_token);
            self.expect(Token::Dot, e)?;
            let sub_name = match self.path_segment() {
                Some(v) => v,
                None => {
                    return Err(
                        ParseError::ExpectedIdentifier {
                            context: "after '.' in import path",
                            found: self.current_token.token.duplicate(),
                            span: self.current_token.span,
                        },
                    );
                },
            };
            self.next_token();
            let ghost p0 = path_text@;
            string_push(&mut path_text, '.');
            string_push_str(&mut path_text, sub_name.as_str());
            assert(path_text@.take(first.len() as int) =~= p0.take(first.len() as int));
            proof {
                self.lemma_cursor_measure();
                if old(self).current_token.token is Identifier && path_rest(s1.cursor(), first) is Some {
                    reveal(path_rest);
                    assert(c.peek is Identifier);
                    assert(self.cursor() == step(step(c)));
                    assert(path_text@ == acc.push('.') + c.peek->Identifier_0);
                }
            }
        }
        proof {
            if old(self).current_token.token is Identifier && path_rest(s1.cursor(), first) is Some {
                reveal(path_rest);
                assert(self.current_token.token@ != TokenView::Plain(Token::Dot));
                assert(path_rest(self.cursor(), path_text@) == Some((path_text@, self.cursor())));
            }
        }
        if matches!(self.current_token.token, Token::Dot) {
            let ghost no_path = match old(self).current_token.token {
                Token::Identifier(n) => path_rest(step(old(self).cursor()), n@) is None,
                _ => true,
            };
            assert(no_path);
            let e = self.unexpected(&self.current_token);
            self.expect(Token::Dot, e)?;
            let open_brace_tok = self.current_token.token.duplicate();
            let open_brace_span = self.current_token.span;
            let e = self.unexpected(&self.current_token);
            self.expect(Token::LeftBrace, e)?;
            self.skip_terminators();
            while !matches!(self.current_token.token, Token::RightBrace)
                invariant
                    self.frame(old(self)),
                    self.measure() < old(self).measure(),
                    old(self).current_token.token is Identifier || old(self).current_token.token is PrimitiveType,
                    old(self).peek_token.token is Dot,
                    no_path == match old(self).current_token.token {
                        Token::Identifier(n) => path_rest(step(old(self).cursor()), n@) is None,
                        _ => true,
                    },
                    no_path,
                    first.len() <= path_text@.len(),
                    path_text@.take(first.len() as int) == first,
                decreases self.measure(),
            {
                let sym = match &self.current_token.token {
                    Token::Identifier(v) => v.clone(),
                    _ => {
                        return Err(
                            ParseError::ExpectedIdentifier {
                                context: "in import symbol list",
                                found: self.current_token.token.duplicate(),
                                span: self.current_token.span,
                            },
                        );
                    },
                };
                self.next_token();
                symbols.push(sym);
                self.skip_terminators();
                if matches!(self.current_token.token, Token::Comma) {
                    let e = self.unexpected(&self.current_token);
                    self.expect(Token::Comma, e)?;
                    self.skip_terminators();
                } else if matches!(self.current_token.token, Token::RightBrace) {
                    break;
                } else {
                    return Err(self.unexpected(&self.current_token));
                }
            }
            let e = ParseError::UnclosedDelimiter {
                open_token: open_brace_tok,
                open_span: open_brace_span,
                expected_token: Token::RightBrace,
                found_tok: self.current_token.token.duplicate(),
                found_span: self.current_token.span,
            };
            self.expect(Token::RightBrace, e)?;
        }
        Ok(ImportItem { module: path_text, symbols, span })
    }
}

} // verus!
