use vstd::prelude::*;

use crate::lexer::rules::{lex, position_at};
use crate::lexer::span::{Span, SpannedToken};
use crate::lexer::token::{lemma_spelling_read_back, spelling, Token, TokenView};
use crate::parser::parser::{spec_unexpected, Parser, MAX_DEPTH};
use crate::parser::statement::{FuncParam, MatchArm, Statement};
use crate::parser::shape::{
    arms_wf, expr_wf, exprs_wf, fields_wf, lemma_arms_wf, lemma_exprs_wf, lemma_fields_wf, lemma_params_wf, lemma_stmts_wf,
    params_wf, stmts_wf, type_wf,
};
use crate::parser::types::{ParseError, Precedence, Type};
use crate::text::string_from;
use crate::typechecker::error::BindingKind;

verus! {

/// An expression of the AST.
#[derive(Debug, PartialEq)]
pub enum Expression {
    Identifier { name: String, span: Span },
    IntLiteral { val: isize, span: Span },
    /// A float literal, as the decimal digits written in the source.
    FloatLiteral { val: String, span: Span },
    BoolLiteral { val: bool, span: Span },
    StringLiteral { val: String, span: Span },
    StructLiteral { name: String, fields: Vec<StructLiteralField>, span: Span },
    Prefix { operator: Token, right: Box<Expression>, span: Span },
    Infix { left: Box<Expression>, operator: Token, right: Box<Expression>, span: Span },
    Postfix { left: Box<Expression>, operator: Token, span: Span },
    Index { left: Box<Expression>, index: Box<Expression>, span: Span },
    Call { function: Box<Expression>, args: Vec<Expression>, span: Span },
    Block { body: Vec<Statement>, span: Span },
    Match { target: Box<Expression>, arms: Vec<MatchArm>, span: Span },
    Field { object: Box<Expression>, name: String, span: Span },
    MethodCall { object: Box<Expression>, name: String, args: Vec<Expression>, span: Span },
    Lambda { params: Vec<FuncParam>, return_type: Option<Type>, body: Vec<Statement>, span: Span },
    Range {
        start: Option<Box<Expression>>,
        end: Option<Box<Expression>>,
        range_kind: RangeKind,
        span: Span,
    },
}

/// `name: value` in a struct literal.
#[derive(Debug, PartialEq)]
pub struct StructLiteralField {
    pub field_name: String,
    pub field_val: Box<Expression>,
}

/// Whether a range includes its right bound.
#[derive(Debug, Clone, Copy, PartialEq, Eq, Structural)]
pub enum RangeKind {
    /// `1:10`, without the right bound.
    Exclusive,
    /// `1..10`, with the right bound.
    Inclusive,
}

/// How tightly an operator token binds when it follows an operand.
pub open spec fn spec_token_precedence(token: &Token) -> Precedence {
    match token {
        Token::Assign | Token::AddAndAssign | Token::SubAndAssign | Token::MulAndAssign | Token::DivAndAssign
        | Token::ModAndAssign => Precedence::Assign,
        Token::Equals | Token::NotEquals => Precedence::Equals,
        Token::LogicOr => Precedence::LogicOr,
        Token::LogicAnd => Precedence::LogicAnd,
        Token::BitOr => Precedence::BitOr,
        Token::BitXOR => Precedence::BitXor,
        Token::BitAnd => Precedence::BitAnd,
        Token::Less | Token::Greater | Token::LessOrEquals | Token::GreaterOrEquals => Precedence::LessGreater,
        Token::Sprout => Precedence::Sprout,
        Token::LeftShift | Token::RightShift => Precedence::Shift,
        Token::Colon | Token::DoubleDot => Precedence::Range,
        Token::Add | Token::Subtract => Precedence::Sum,
        Token::Multiply | Token::Divide | Token::Modulus => Precedence::Product,
        Token::Power => Precedence::Power,
        Token::Increment | Token::Decrement | Token::LeftParen | Token::LeftBracket | Token::Pipe | Token::Dot => {
            Precedence::Postfix
        },
        _ => Precedence::Lowest,
    }
}

#[verifier::when_used_as_spec(spec_token_precedence)]
pub fn token_precedence(token: &Token) -> (p: Precedence)
    ensures
        p == spec_token_precedence(token),
{
    match token {
        Token::Assign | Token::AddAndAssign | Token::SubAndAssign | Token::MulAndAssign | Token::DivAndAssign
        | Token::ModAndAssign => Precedence::Assign,
        Token::Equals | Token::NotEquals => Precedence::Equals,
        Token::LogicOr => Precedence::LogicOr,
        Token::LogicAnd => Precedence::LogicAnd,
        Token::BitOr => Precedence::BitOr,
        Token::BitXOR => Precedence::BitXor,
        Token::BitAnd => Precedence::BitAnd,
        Token::Less | Token::Greater | Token::LessOrEquals | Token::GreaterOrEquals => Precedence::LessGreater,
        Token::Sprout => Precedence::Sprout,
        Token::LeftShift | Token::RightShift => Precedence::Shift,
        Token::Colon | Token::DoubleDot => Precedence::Range,
        Token::Add | Token::Subtract => Precedence::Sum,
        Token::Multiply | Token::Divide | Token::Modulus => Precedence::Product,
        Token::Power => Precedence::Power,
        Token::Increment | Token::Decrement | Token::LeftParen | Token::LeftBracket | Token::Pipe | Token::Dot => {
            Precedence::Postfix
        },
        _ => Precedence::Lowest,
    }
}

impl Expression {
    pub open spec fn spec_span(&self) -> Span {
        match self {
            Expression::Identifier { span, .. } => *span,
            Expression::IntLiteral { span, .. } => *span,
            Expression::FloatLiteral { span, .. } => *span,
            Expression::BoolLiteral { span, .. } => *span,
            Expression::StringLiteral { span, .. } => *span,
            Expression::StructLiteral { span, .. } => *span,
            Expression::Prefix { span, .. } => *span,
            Expression::Infix { span, .. } => *span,
            Expression::Postfix { span, .. } => *span,
            Expression::Index { span, .. } => *span,
            Expression::Call { span, .. } => *span,
            Expression::Block { span, .. } => *span,
            Expression::Match { span, .. } => *span,
            Expression::Field { span, .. } => *span,
            Expression::MethodCall { span, .. } => *span,
            Expression::Lambda { span, .. } => *span,
            Expression::Range { span, .. } => *span,
        }
    }

    /// Where the expression stands in the source.
    #[verifier::when_used_as_spec(spec_span)]
    pub fn span(&self) -> (r: Span)
        ensures
            r == self.spec_span(),
    {
        match self {
            Expression::Identifier { span, .. } => *span,
            Expression::IntLiteral { span, .. } => *span,
            Expression::FloatLiteral { span, .. } => *span,
            Expression::BoolLiteral { span, .. } => *span,
            Expression::StringLiteral { span, .. } => *span,
            Expression::StructLiteral { span, .. } => *span,
            Expression::Prefix { span, .. } => *span,
            Expression::Infix { span, .. } => *span,
            Expression::Postfix { span, .. } => *span,
            Expression::Index { span, .. } => *span,
            Expression::Call { span, .. } => *span,
            Expression::Block { span, .. } => *span,
            Expression::Match { span, .. } => *span,
            Expression::Field { span, .. } => *span,
            Expression::MethodCall { span, .. } => *span,
            Expression::Lambda { span, .. } => *span,
            Expression::Range { span, .. } => *span,
        }
    }
}

/// Whether an expression can start with `t`.
pub open spec fn starts_expression(t: Token) -> bool {
    t is Int || t is Float32 || t is Float64 || t is Identifier || t is Bool || t is String || t is LeftParen
        || t is Subtract || t is LogicNot || t is BitAnd || t is BitNot || t is Increment || t is Decrement
        || t is Match || t is Fun
}

/// The expression that the current token starts is that one token: a
/// literal, or a name that does not open a struct literal.
pub open spec fn at_atom(p: Parser) -> bool {
    ||| p.current_token.token is Int
    ||| p.current_token.token is Bool
    ||| p.current_token.token is String
    ||| p.current_token.token is Float32
    ||| p.current_token.token is Float64
    ||| (p.current_token.token is Identifier && !(p.allowed_struct_literal && p.peek_token.token is LeftBrace))
}

/// `e` is the expression of the single token `tok` at `span`: the literal
/// it holds, or the name it is.
pub open spec fn is_atom_of(e: Expression, tok: Token, span: Span) -> bool {
    match tok {
        Token::Int(v) => e == Expression::IntLiteral { val: v, span },
        Token::Bool(b) => e == Expression::BoolLiteral { val: b, span },
        Token::String(t) => e matches Expression::StringLiteral { val, span: sp } && val@ == t@ && sp == span,
        Token::Float32(t) => e matches Expression::FloatLiteral { val, span: sp } && val@ == t@ && sp == span,
        Token::Float64(t) => e matches Expression::FloatLiteral { val, span: sp } && val@ == t@ && sp == span,
        Token::Identifier(n) => e matches Expression::Identifier { name, span: sp } && name@ == n@ && sp == span,
        _ => false,
    }
}

/// The expression at precedence `precedence` goes on after its first
/// operand: a line break inside parentheses is skipped, or the next token is
/// an operator that binds tighter (or as tight, for `=` and `**`).
pub open spec fn goes_on_after_operand(p: Parser, precedence: Precedence) -> bool {
    let peek = spec_token_precedence(&p.peek_token.token);
    ||| (p.paren_depth > 0 && p.peek_token.token is Newline)
    ||| precedence.spec_rank() < peek.spec_rank()
    ||| (precedence.spec_rank() == peek.spec_rank() && (p.peek_token.token is Assign || p.peek_token.token is Power))
}

/// How tightly the language documents a binary operator written `w` to
/// bind, from loosest to tightest: assignment (`=`, `+=`, `-=`, `*=`, `/=`,
/// `%=`), `||`, `&&`, `#`, `^`, `&`, `==` `!=`, `<` `>` `<=` `>=`, `:` `..`,
/// `~>`, `<<` `>>`, `+` `-`, `*` `/` `%`, and `**`.
pub open spec fn documented_level(w: Seq<char>) -> Option<int> {
    if w == seq!['='] || w == seq!['+', '='] || w == seq!['-', '='] || w == seq!['*', '='] || w == seq!['/', '=']
        || w == seq!['%', '='] {
        Some(1)
    } else if w == seq!['|', '|'] {
        Some(2)
    } else if w == seq!['&', '&'] {
        Some(3)
    } else if w == seq!['#'] {
        Some(4)
    } else if w == seq!['^'] {
        Some(5)
    } else if w == seq!['&'] {
        Some(6)
    } else if w == seq!['=', '='] || w == seq!['!', '='] {
        Some(7)
    } else if w == seq!['<'] || w == seq!['>'] || w == seq!['<', '='] || w == seq!['>', '='] {
        Some(8)
    } else if w == seq![':'] || w == seq!['.', '.'] {
        Some(9)
    } else if w == seq!['~', '>'] {
        Some(10)
    } else if w == seq!['<', '<'] || w == seq!['>', '>'] {
        Some(11)
    } else if w == seq!['+'] || w == seq!['-'] {
        Some(12)
    } else if w == seq!['*'] || w == seq!['/'] || w == seq!['%'] {
        Some(13)
    } else if w == seq!['*', '*'] {
        Some(15)
    } else {
        None
    }
}

/// A binary operator token binds at its documented level.
proof fn lemma_documented_level(t: Token)
    requires
        spelling(t) is Some,
        documented_level(spelling(t).unwrap()) is Some,
    ensures
        documented_level(spelling(t).unwrap()) == Some(spec_token_precedence(&t).spec_rank() as int),
{
    lemma_spelling_read_back(t);
}

/// Operator precedence follows the documented order: of two binary
/// operators, one binds tighter than the other exactly when the language
/// documents it so, and two bind alike exactly when documented alike (so
/// `%` binds like `*` and `/`, tighter than `+` and `-`: `1 + 5 % 3` reads
/// as `1 + (5 % 3)`).
pub proof fn law_operator_precedence_order(t1: Token, t2: Token)
    requires
        spelling(t1) is Some,
        spelling(t2) is Some,
        documented_level(spelling(t1).unwrap()) is Some,
        documented_level(spelling(t2).unwrap()) is Some,
    ensures
        documented_level(spelling(t1).unwrap()).unwrap() < documented_level(spelling(t2).unwrap()).unwrap()
            <==> spec_token_precedence(&t1).spec_rank() < spec_token_precedence(&t2).spec_rank(),
        documented_level(spelling(t1).unwrap()) == documented_level(spelling(t2).unwrap()) <==> spec_token_precedence(
            &t1,
        ) == spec_token_precedence(&t2),
{
    lemma_documented_level(t1);
    lemma_documented_level(t2);
    let a = spec_token_precedence(&t1);
    let b = spec_token_precedence(&t2);
    assert(a.spec_rank() == b.spec_rank() ==> a == b);
}

/// `*`, `/` and `%` bind alike and tighter than `+` and `-`.
pub proof fn law_multiplicative_binds_tighter(m: Token, a: Token)
    requires
        spelling(m) == Some(seq!['*']) || spelling(m) == Some(seq!['/']) || spelling(m) == Some(seq!['%']),
        spelling(a) == Some(seq!['+']) || spelling(a) == Some(seq!['-']),
    ensures
        spec_token_precedence(&m) == spec_token_precedence(&Token::Multiply),
        spec_token_precedence(&m).spec_rank() > spec_token_precedence(&a).spec_rank(),
{
    lemma_spelling_read_back(m);
    lemma_spelling_read_back(a);
}

/// How tightly a lexed token binds when it follows an operand.
pub open spec fn view_precedence(v: TokenView) -> Precedence {
    match v {
        TokenView::Plain(t) => spec_token_precedence(&t),
        _ => Precedence::Lowest,
    }
}

/// A token's precedence is that of its view.
pub proof fn lemma_view_precedence(t: Token)
    ensures
        spec_token_precedence(&t) == view_precedence(t@),
{
}

/// A binary operator: the parser reads the operand after it at the
/// operator's own precedence.
pub open spec fn is_binary_operator(t: Token) -> bool {
    t is Add || t is Subtract || t is Multiply || t is Divide || t is Modulus || t is Equals || t is NotEquals
        || t is Less || t is Greater || t is LessOrEquals || t is GreaterOrEquals || t is Assign || t is Power
        || t is AddAndAssign || t is SubAndAssign || t is MulAndAssign || t is DivAndAssign || t is ModAndAssign
        || t is LogicAnd || t is LogicOr || t is BitAnd || t is BitOr || t is BitXOR
}

/// The lexed token `v`, followed by `next`, is an expression of one token:
/// a literal, or a name that does not open a struct literal.
pub open spec fn view_is_atom(v: TokenView, next: TokenView, allowed_struct_literal: bool) -> bool {
    match v {
        TokenView::Identifier(_) => !(allowed_struct_literal && next == TokenView::Plain(Token::LeftBrace)),
        TokenView::Str(_) | TokenView::Float32(_) | TokenView::Float64(_) => true,
        TokenView::Plain(t) => t is Int || t is Bool,
    }
}

/// An expression at `precedence` goes on over the lexed token `v`.
pub open spec fn view_continues(precedence: Precedence, v: TokenView) -> bool {
    ||| precedence.spec_rank() < view_precedence(v).spec_rank()
    ||| (precedence.spec_rank() == view_precedence(v).spec_rank() && (v == TokenView::Plain(Token::Assign) || v
        == TokenView::Plain(Token::Power)))
}

/// The input from the parser's position reads `x op y` and then a token at
/// which an expression at `precedence` ends: two one-token operands around
/// a binary operator that goes on from `precedence`, outside parentheses.
pub open spec fn at_simple_infix(p: Parser, precedence: Precedence) -> bool {
    let x = lex(p.source(), p.lexer_index());
    let after = lex(p.source(), x.end);
    &&& at_atom(p)
    &&& p.paren_depth == 0
    &&& is_binary_operator(p.peek_token.token)
    &&& goes_on_after_operand(p, precedence)
    &&& view_is_atom(x.token, after.token, p.allowed_struct_literal)
    &&& !view_continues(spec_token_precedence(&p.peek_token.token), after.token)
    &&& !view_continues(precedence, after.token)
}

/// `e` is `x op y` read from a parser at `p`, with `last` the token of `y`:
/// the operator is `p`'s next token, `y` is the token lexed after it, and
/// the expression spans from `x` to `y`.
pub open spec fn is_simple_infix_of(e: Expression, p: Parser, last: SpannedToken) -> bool {
    let x = lex(p.source(), p.lexer_index());
    &&& e matches Expression::Infix { left, operator, right, span } && is_atom_of(
        *left,
        p.current_token.token,
        p.current_token.span,
    ) && operator == p.peek_token.token && is_atom_of(*right, last.token, last.span) && span == (Span {
        start: p.current_token.span.start,
        end: last.span.end,
    })
    &&& last.token@ == x.token
    &&& last.span == (Span { start: position_at(p.source(), x.start as nat), end: position_at(p.source(), x.end as nat) })
}

/// A token that stands as a prefix operator before its operand.
pub open spec fn is_prefix_operator(t: Token) -> bool {
    t is Subtract || t is LogicNot || t is BitAnd || t is BitNot || t is Increment || t is Decrement
}

/// The operators that may open a parenthesized operator section such as `(+ 1)`.
pub open spec fn is_section_operator(t: Token) -> bool {
    t is Equals || t is NotEquals || t is Less || t is Greater || t is LessOrEquals || t is GreaterOrEquals
        || t is Sprout || t is Add || t is Multiply || t is Divide || t is Modulus || t is Power || t is LogicAnd
        || t is LogicOr || t is BitAnd || t is BitOr || t is BitXOR || t is LeftShift || t is RightShift
}

/// Whether `t` may open an operator section.
pub fn section_operator(t: &Token) -> (b: bool)
    ensures
        b == is_section_operator(*t),
{
    matches!(t, Token::Equals | Token::NotEquals | Token::Less | Token::Greater
        | Token::LessOrEquals | Token::GreaterOrEquals | Token::Sprout | Token::Add | Token::Multiply
        | Token::Divide | Token::Modulus | Token::Power | Token::LogicAnd | Token::LogicOr | Token::BitAnd
        | Token::BitOr | Token::BitXOR | Token::LeftShift | Token::RightShift)
}

impl Parser {
    /// Counts one more open parenthesis; says whether the count moved (it
    /// stays put only at `usize::MAX`).
    fn bump_paren_depth(&mut self) -> (bumped: bool)
        ensures
            *final(self) == (Parser { paren_depth: final(self).paren_depth, ..*old(self) }),
            bumped == (old(self).paren_depth < usize::MAX),
            final(self).paren_depth == (if bumped { old(self).paren_depth + 1 } else { old(self).paren_depth as int }),
    {
        if self.paren_depth < usize::MAX {
            self.paren_depth = self.paren_depth + 1;
            true
        } else {
            false
        }
    }

    /// Parses an expression whose operators bind tighter than `precedence`
    /// (or as tight, for the right-associative `=` and `**`). On success the
    /// current token is the last token of the expression.
    pub fn parse_expression(&mut self, precedence: Precedence) -> (r: Result<Expression, ParseError>)
        requires
            old(self).wf(),
        ensures
            final(self).frame(old(self)),
            r is Ok ==> !(old(self).current_token.token is Eof),
            old(self).depth == MAX_DEPTH ==> r == Err::<Expression, ParseError>(
                ParseError::TooDeep { span: old(self).current_token.span },
            ) && *final(self) == *old(self),
            old(self).depth < MAX_DEPTH && !starts_expression(old(self).current_token.token) ==> r == Err::<
                Expression,
                ParseError,
            >(spec_unexpected(&old(self).current_token)),
            r matches Ok(e) ==> expr_wf(e),
            old(self).depth < MAX_DEPTH && at_atom(*old(self)) && !goes_on_after_operand(*old(self), precedence) ==> (r matches Ok(e)
                && is_atom_of(e, old(self).current_token.token, old(self).current_token.span) && *final(self) == *old(
                self,
            )),
            old(self).depth + 1 < MAX_DEPTH && at_simple_infix(*old(self), precedence) ==> (r matches Ok(e)
                && is_simple_infix_of(e, *old(self), final(self).current_token)),
        decreases MAX_DEPTH + 1 - old(self).depth, 0int,
    {
        self.depth = self.depth + 1;
        if self.depth > MAX_DEPTH {
            self.depth = self.depth - 1;
            return Err(ParseError::TooDeep { span: self.current_token.span });
        }
        let result = self.parse_expression_inner(precedence);
        self.depth = self.depth - 1;
        result
    }

    /// An operator section `(op rhs)`: a one-parameter lambda `$0 op rhs`.
    /// The current token is the operator.
    fn parse_operator_section(&mut self, start_span: Span, open_token: Token, open_span: Span) -> (r: Result<
        Expression,
        ParseError,
    >)
        requires
            old(self).wf(),
            old(self).depth >= 1,
            !(old(self).current_token.token is Eof),
        ensures
            final(self).frame(old(self)),
            final(self).measure() < old(self).measure(),
            r matches Ok(e) ==> e is Lambda,
            r matches Ok(e) ==> expr_wf(e),
        decreases MAX_DEPTH + 1 - old(self).depth, 2int,
    {
        let operator = self.current_token.token.duplicate();
        self.next_token();
        let right_part = self.parse_expression(Precedence::Lowest)?;
        self.skip_terminators();
        if matches!(self.peek_token.token, Token::RightParen) {
            self.next_token();
        } else {
            return Err(
                ParseError::UnclosedDelimiter {
                    open_token,
                    open_span,
                    expected_token: Token::RightParen,
                    found_tok: self.peek_token.token.duplicate(),
                    found_span: self.peek_token.span,
                },
            );
        }
        let arg_ident = Expression::Identifier { name: string_from("$0"), span: start_span };
        let body_expr = Expression::Infix {
            left: Box::new(arg_ident),
            operator,
            right: Box::new(right_part),
            span: start_span,
        };
        assert(expr_wf(right_part));
        assert(expr_wf(arg_ident));
        assert(expr_wf(body_expr));
        let mut params: Vec<FuncParam> = Vec::new();
        params.push(
            FuncParam {
                name: string_from("$0"),
                param_type: Type::Infer,
                span: start_span,
                kind: BindingKind::Param,
                is_ref: false,
            },
        );
        let mut body: Vec<Statement> = Vec::new();
        body.push(Statement::Return { value: Some(body_expr), span: start_span });
        proof {
            assert(type_wf(params@[0].param_type));
            lemma_params_wf(params@);
            assert(crate::parser::shape::stmt_wf(body@[0]));
            lemma_stmts_wf(body@);
        }
        Ok(Expression::Lambda { params, return_type: None, body, span: start_span })
    }

    /// A parenthesized expression or operator section; the current token is `(`.
    fn parse_grouped(&mut self, start_span: Span) -> (r: Result<Expression, ParseError>)
        requires
            old(self).wf(),
            old(self).depth >= 1,
            old(self).current_token.token is LeftParen,
        ensures
            final(self).frame(old(self)),
            final(self).measure() < old(self).measure(),
            r matches Ok(e) ==> expr_wf(e),
        decreases MAX_DEPTH + 1 - old(self).depth, 3int,
    {
        let open_token = self.current_token.token.duplicate();
        let open_span = self.current_token.span;
        let bumped = self.bump_paren_depth();
        self.next_token();
        self.skip_terminators();
        if section_operator(&self.current_token.token) {
            let section = self.parse_operator_section(start_span, open_token, open_span)?;
            if bumped {
                self.paren_depth = self.paren_depth - 1;
            }
            return Ok(section);
        }
        let expr = self.parse_expression(Precedence::Lowest)?;
        self.skip_terminators();
        if matches!(self.peek_token.token, Token::RightParen) {
            self.next_token();
            if bumped {
                self.paren_depth = self.paren_depth - 1;
            }
            Ok(expr)
        } else {
            Err(
                ParseError::UnclosedDelimiter {
                    open_token,
                    open_span,
                    expected_token: Token::RightParen,
                    found_tok: self.peek_token.token.duplicate(),
                    found_span: self.peek_token.span,
                },
            )
        }
    }

    /// A prefix operator applied to the operand after it.
    fn parse_prefix(&mut self, start_span: Span) -> (r: Result<Expression, ParseError>)
        requires
            old(self).wf(),
            old(self).depth >= 1,
            !(old(self).current_token.token is Eof),
        ensures
            final(self).frame(old(self)),
            final(self).measure() < old(self).measure(),
            r matches Ok(e) ==> (e matches Expression::Prefix { operator, span, .. } && operator == old(
                self,
            ).current_token.token && span == start_span),
            r matches Ok(e) ==> expr_wf(e),
        decreases MAX_DEPTH + 1 - old(self).depth, 1int,
    {
        let operator = self.current_token.token.duplicate();
        self.next_token();
        let right = self.parse_expression(Precedence::Prefix)?;
        Ok(Expression::Prefix { operator, right: Box::new(right), span: start_span })
    }

    /// The operand that starts an expression.
    fn parse_operand(&mut self, start_span: Span) -> (r: Result<Expression, ParseError>)
        requires
            old(self).wf(),
            old(self).depth >= 1,
        ensures
            final(self).frame(old(self)),
            r is Ok ==> !(old(self).current_token.token is Eof),
            !starts_expression(old(self).current_token.token) ==> r == Err::<Expression, ParseError>(
                spec_unexpected(&old(self).current_token),
            ),
            r matches Ok(e) ==> expr_wf(e),
            at_atom(*old(self)) ==> (r matches Ok(e) && is_atom_of(e, old(self).current_token.token, start_span)),
            at_atom(*old(self)) ==> *final(self) == *old(self),
            old(self).current_token.token matches Token::Identifier(n) ==> (old(self).allowed_struct_literal && old(
                self,
            ).peek_token.token is LeftBrace ==> (r matches Ok(e) ==> (e matches Expression::StructLiteral {
                name,
                span,
                ..
            } && name@ == n@ && span == start_span))),
            is_prefix_operator(old(self).current_token.token) ==> (r matches Ok(e) ==> (e matches Expression::Prefix {
                operator,
                span,
                ..
            } && operator == old(self).current_token.token && span == start_span)),
        decreases MAX_DEPTH + 1 - old(self).depth, 5int,
    {
        match &self.current_token.token {
            Token::Int(v) => {
                return Ok(Expression::IntLiteral { val: *v, span: start_span });
            },
            Token::Float32(v) => {
                return Ok(Expression::FloatLiteral { val: v.clone(), span: start_span });
            },
            Token::Float64(v) => {
                return Ok(Expression::FloatLiteral { val: v.clone(), span: start_span });
            },
            Token::Bool(b) => {
                return Ok(Expression::BoolLiteral { val: *b, span: start_span });
            },
            Token::String(s) => {
                return Ok(Expression::StringLiteral { val: s.clone(), span: start_span });
            },
            Token::Identifier(s) => {
                if !(self.allowed_struct_literal && matches!(self.peek_token.token, Token::LeftBrace)) {
                    return Ok(Expression::Identifier { name: s.clone(), span: start_span });
                }
            },
            _ => {},
        }
        if matches!(self.current_token.token, Token::Identifier(_)) {
            self.parse_struct_literal(start_span)
        } else if matches!(self.current_token.token, Token::LeftParen) {
            self.parse_grouped(start_span)
        } else if matches!(self.current_token.token, Token::Subtract | Token::LogicNot | Token::BitAnd
            | Token::BitNot | Token::Increment | Token::Decrement) {
            self.parse_prefix(start_span)
        } else if matches!(self.current_token.token, Token::Match) {
            self.parse_match_expression()
        } else if matches!(self.current_token.token, Token::Fun) {
            self.parse_lambda()
        } else {
            Err(self.unexpected(&self.current_token))
        }
    }

    #[verifier::rlimit(60)]
    fn parse_expression_inner(&mut self, precedence: Precedence) -> (r: Result<Expression, ParseError>)
        requires
            old(self).wf(),
            old(self).depth >= 1,
        ensures
            final(self).frame(old(self)),
            r is Ok ==> !(old(self).current_token.token is Eof),
            !starts_expression(old(self).current_token.token) ==> r == Err::<Expression, ParseError>(
                spec_unexpected(&old(self).current_token),
            ),
            r matches Ok(e) ==> expr_wf(e),
            at_atom(*old(self)) && !goes_on_after_operand(*old(self), precedence) ==> (r matches Ok(e) && is_atom_of(
                e,
                old(self).current_token.token,
                old(self).current_token.span,
            ) && *final(self) == *old(self)),
            at_simple_infix(*old(self), precedence) && old(self).depth < MAX_DEPTH ==> (r matches Ok(e)
                && is_simple_infix_of(e, *old(self), final(self).current_token)),
        decreases MAX_DEPTH + 1 - old(self).depth, 10int,
    {
        let mut start_span = self.current_token.span;
        let mut left = self.parse_operand(start_span)?;
        let ghost simple = at_simple_infix(*old(self), precedence) && old(self).depth < MAX_DEPTH;
        let ghost x = lex(old(self).source(), old(self).lexer_index());
        let ghost after = lex(old(self).source(), x.end);
        let ghost mut steps: int = 0;
        loop
            invariant
                self.frame(old(self)),
                !(old(self).current_token.token is Eof),
                starts_expression(old(self).current_token.token),
                self.depth == old(self).depth,
                old(self).depth >= 1,
                expr_wf(left),
                at_atom(*old(self)) && !goes_on_after_operand(*old(self), precedence) ==> *self == *old(self)
                    && is_atom_of(left, old(self).current_token.token, old(self).current_token.span),
                simple == (at_simple_infix(*old(self), precedence) && old(self).depth < MAX_DEPTH),
                x == lex(old(self).source(), old(self).lexer_index()),
                after == lex(old(self).source(), x.end),
                simple ==> 0 <= steps <= 1,
                simple && steps == 0 ==> *self == *old(self) && is_atom_of(
                    left,
                    old(self).current_token.token,
                    old(self).current_token.span,
                ),
                simple && steps == 1 ==> self.paren_depth == 0 && self.peek_token.token@ == after.token
                    && is_simple_infix_of(left, *old(self), self.current_token),
            ensures
                self.frame(old(self)),
                expr_wf(left),
                at_atom(*old(self)) && !goes_on_after_operand(*old(self), precedence) ==> *self == *old(self)
                    && is_atom_of(left, old(self).current_token.token, old(self).current_token.span),
                simple ==> steps == 1 && is_simple_infix_of(left, *old(self), self.current_token),
            decreases self.measure(),
        {
            let ghost iteration_start = *self;
            if self.paren_depth > 0 {
                while matches!(self.peek_token.token, Token::Newline)
                    invariant
                        self.frame(old(self)),
                        self.frame(&iteration_start),
                        self.depth == old(self).depth,
                        iteration_start.paren_depth > 0,
                        at_atom(*old(self)) && !goes_on_after_operand(*old(self), precedence) && iteration_start
                            == *old(self) ==> *self == *old(self),
                    decreases self.measure(),
                {
                    self.next_token();
                }
            }
            let peek_prec = self.peek_precedence();
            proof {
                lemma_view_precedence(self.peek_token.token);
            }
            let goes_on = precedence.rank() < peek_prec.rank() || (precedence.rank() == peek_prec.rank()
                && matches!(self.peek_token.token, Token::Assign | Token::Power));
            proof {
                if simple && steps == 0 {
                    assert(goes_on_after_operand(*old(self), precedence));
                    assert(goes_on);
                }
            }
            if !goes_on {
                break;
            }
            proof {
                if simple {
                    assert(steps == 0);
                }
            }
            let ghost before = *self;
            if matches!(self.peek_token.token, Token::Add | Token::Subtract | Token::Multiply | Token::Divide
                | Token::Modulus | Token::Equals | Token::NotEquals | Token::Less | Token::Greater
                | Token::LessOrEquals | Token::GreaterOrEquals | Token::Assign | Token::Power | Token::AddAndAssign
                | Token::SubAndAssign | Token::MulAndAssign | Token::DivAndAssign | Token::ModAndAssign
                | Token::LogicAnd | Token::LogicOr | Token::BitAnd | Token::BitOr | Token::BitXOR) {
                self.next_token();
                let operator = self.current_token.token.duplicate();
                self.next_token();
                proof {
                    if simple {
                        lemma_view_precedence(self.peek_token.token);
                        assert(self.current_token.token@ == x.token);
                        assert(self.peek_token.token@ == after.token);
                        assert(at_atom(*self));
                        assert(!goes_on_after_operand(*self, peek_prec));
                    }
                }
                let ghost state2 = *self;
                let right = self.parse_expression(peek_prec)?;
                let span = left.span().merge(&right.span());
                left = Expression::Infix { left: Box::new(left), operator, right: Box::new(right), span };
                proof {
                    if simple {
                        assert(*self == state2);
                        steps = 1;
                    }
                }
            } else if matches!(self.peek_token.token, Token::Decrement | Token::Increment | Token::Pipe) {
                self.next_token();
                let operator = self.current_token.token.duplicate();
                start_span = self.current_token.span;
                left = Expression::Postfix { left: Box::new(left), operator, span: start_span };
            } else if matches!(self.peek_token.token, Token::Dot) {
                self.next_token();
                left = self.parse_dot(left, start_span)?;
            } else if matches!(self.peek_token.token, Token::LeftParen) {
                self.next_token();
                let args = self.parse_call_args()?;
                left = Expression::Call { function: Box::new(left), args, span: start_span };
            } else if matches!(self.peek_token.token, Token::LeftBracket) {
                self.next_token();
                left = self.parse_index_expression(left)?;
            } else if matches!(self.peek_token.token, Token::Sprout) {
                self.next_token();
                self.next_token();
                let right = self.parse_expression(Precedence::Sprout)?;
                let mut args: Vec<Expression> = Vec::new();
                args.push(left);
                proof {
                    lemma_exprs_wf(args@);
                }
                left = Expression::Call { function: Box::new(right), args, span: start_span };
            } else if matches!(self.peek_token.token, Token::LeftShift | Token::RightShift) {
                self.next_token();
                let operator = self.current_token.token.duplicate();
                self.next_token();
                let right = self.parse_expression(peek_prec)?;
                left = Expression::Infix { left: Box::new(left), operator, right: Box::new(right), span: start_span };
            } else if matches!(self.peek_token.token, Token::Colon | Token::DoubleDot) {
                self.next_token();
                left = self.parse_infix_range(left)?;
            } else {
                proof {
                    assert(!(simple && steps == 0));
                }
                break;
            }
            self.skip_terminators();
            assert(self.measure() < before.measure());
        }
        Ok(left)
    }

    /// `left[index]`; the current token is `[`.
    fn parse_index_expression(&mut self, left: Expression) -> (r: Result<Expression, ParseError>)
        requires
            old(self).wf(),
            old(self).depth >= 1,
            old(self).current_token.token is LeftBracket,
        ensures
            final(self).frame(old(self)),
            final(self).measure() < old(self).measure(),
            r matches Ok(e) ==> e is Index,
            expr_wf(left) ==> (r matches Ok(e) ==> expr_wf(e)),
        decreases MAX_DEPTH + 1 - old(self).depth, 1int,
    {
        let start_span = self.current_token.span;
        let open_token = self.current_token.token.duplicate();
        let open_span = self.current_token.span;
        self.next_token();
        let index = self.parse_expression(Precedence::Lowest)?;
        if !matches!(self.peek_token.token, Token::RightBracket) {
            return Err(
                ParseError::UnclosedDelimiter {
                    open_token,
                    open_span,
                    expected_token: Token::RightBracket,
                    found_tok: self.peek_token.token.duplicate(),
                    found_span: self.peek_token.span,
                },
            );
        }
        self.next_token();
        Ok(Expression::Index { left: Box::new(left), index: Box::new(index), span: start_span })
    }

    /// `match target { pattern => body, ... }`; the current token is `match`.
    /// On success the current token is the closing `}`.
    #[verifier::rlimit(30)]
    pub fn parse_match_expression(&mut self) -> (r: Result<Expression, ParseError>)
        requires
            old(self).wf(),
        ensures
            final(self).frame(old(self)),
            r is Ok ==> final(self).measure() < old(self).measure(),
            r matches Ok(e) ==> e is Match,
            !(old(self).current_token.token is Match) ==> r == Err::<Expression, ParseError>(
                spec_unexpected(&old(self).current_token),
            ),
            r matches Ok(e) ==> expr_wf(e),
        decreases MAX_DEPTH + 1 - old(self).depth, 4int,
    {
        let start_span = self.current_token.span;
        let e = self.unexpected(&self.current_token);
        self.expect(Token::Match, e)?;
        let saved = self.allowed_struct_literal;
        self.allowed_struct_literal = false;
        let target = self.parse_expression(Precedence::Lowest)?;
        self.allowed_struct_literal = saved;
        self.next_token();
        let open_brace_tok = self.current_token.token.duplicate();
        let open_brace_span = self.current_token.span;
        let e = self.unexpected(&self.current_token);
        self.expect(Token::LeftBrace, e)?;
        self.skip_arm_separators();
        let mut arms: Vec<MatchArm> = Vec::new();
        while !matches!(self.current_token.token, Token::RightBrace | Token::Eof)
            invariant
                self.frame(old(self)),
                self.measure() < old(self).measure(),
                old(self).current_token.token is Match,
                forall|k: int| 0 <= k < arms.len() ==> expr_wf((#[trigger] arms@[k]).pattern) && expr_wf(arms@[k].body),
            decreases self.measure(),
        {
            let ghost before = *self;
            let pattern = self.parse_pattern()?;
            self.next_token();
            let e = ParseError::ExpectedFatArrow {
                found: self.current_token.token.duplicate(),
                span: self.current_token.span,
            };
            self.expect(Token::FatArrow, e)?;
            let body = if matches!(self.current_token.token, Token::LeftBrace) {
                self.next_token();
                let (block_stmts, _) = self.parse_block()?;
                Expression::Block { body: block_stmts, span: start_span }
            } else {
                let saved = self.allowed_struct_literal;
                self.allowed_struct_literal = false;
                let e = self.parse_expression(Precedence::Lowest)?;
                self.allowed_struct_literal = saved;
                self.next_token();
                e
            };
            arms.push(MatchArm { pattern, body, span: start_span });
            self.skip_arm_separators();
            assert(self.measure() < before.measure());
        }
        if !matches!(self.current_token.token, Token::RightBrace) {
            return Err(
                ParseError::UnclosedDelimiter {
                    open_token: open_brace_tok,
                    open_span: open_brace_span,
                    expected_token: Token::RightBrace,
                    found_tok: self.current_token.token.duplicate(),
                    found_span: self.current_token.span,
                },
            );
        }
        proof {
            lemma_arms_wf(arms@);
        }
        Ok(Expression::Match { target: Box::new(target), arms, span: start_span })
    }

    /// `.name` or `.name(args)` after `left`; the current token is `.`.
    pub fn parse_dot(&mut self, left: Expression, span: Span) -> (r: Result<Expression, ParseError>)
        requires
            old(self).wf(),
        ensures
            final(self).frame(old(self)),
            r is Ok ==> final(self).measure() < old(self).measure(),
            r matches Ok(e) ==> e is MethodCall || e is Field,
            !(old(self).current_token.token is Dot) ==> r == Err::<Expression, ParseError>(
                spec_unexpected(&old(self).current_token),
            ),
            expr_wf(left) ==> (r matches Ok(e) ==> expr_wf(e)),
        decreases MAX_DEPTH + 1 - old(self).depth, 2int,
    {
        let e = self.unexpected(&self.current_token);
        self.expect(Token::Dot, e)?;
        self.skip_terminators();
        let name = match &self.current_token.token {
            Token::Identifier(name) => name.clone(),
            _ => {
                return Err(
                    ParseError::ExpectedIdentifier {
                        context: "after '.' in field access",
                        found: self.current_token.token.duplicate(),
                        span: self.current_token.span,
                    },
                );
            },
        };
        if matches!(self.peek_token.token, Token::LeftParen) {
            let span = self.current_token.span;
            self.next_token();
            let args = self.parse_call_args()?;
            Ok(Expression::MethodCall { object: Box::new(left), name, args, span })
        } else {
            Ok(Expression::Field { object: Box::new(left), name, span: span.merge(&self.current_token.span) })
        }
    }

    /// A pattern of a match arm: any expression.
    pub fn parse_pattern(&mut self) -> (r: Result<Expression, ParseError>)
        requires
            old(self).wf(),
        ensures
            final(self).frame(old(self)),
            r is Ok ==> !(old(self).current_token.token is Eof),
            r matches Ok(e) ==> expr_wf(e),
        decreases MAX_DEPTH + 1 - old(self).depth, 1int,
    {
        self.parse_expression(Precedence::Lowest)
    }

    /// The parameters of a function, up to (not including) the closing `)`.
    pub fn parse_func_params(&mut self) -> (r: Result<Vec<FuncParam>, ParseError>)
        requires
            old(self).wf(),
        ensures
            final(self).frame(old(self)),
            r is Ok ==> final(self).current_token.token is RightParen,
            r matches Ok(ps) ==> params_wf(ps@),
        decreases MAX_DEPTH + 1 - old(self).depth, 1int,
    {
        let mut params: Vec<FuncParam> = Vec::new();
        while !matches!(self.current_token.token, Token::RightParen)
            invariant
                self.frame(old(self)),
                forall|k: int| 0 <= k < params.len() ==> type_wf(#[trigger] params@[k].param_type),
            ensures
                self.frame(old(self)),
                self.current_token.token is RightParen,
                forall|k: int| 0 <= k < params.len() ==> type_wf(#[trigger] params@[k].param_type),
            decreases self.measure(),
        {
            let ghost before = *self;
            let kind = if matches!(self.current_token.token, Token::Var) {
                self.next_token();
                BindingKind::Var
            } else {
                BindingKind::Param
            };
            let start_span = self.current_token.span;
            let param_name = match &self.current_token.token {
                Token::Identifier(name) => name.clone(),
                _ => {
                    return Err(
                        ParseError::ExpectedIdentifier {
                            context: "in function parameter",
                            found: self.current_token.token.duplicate(),
                            span: self.current_token.span,
                        },
                    );
                },
            };
            self.next_token();
            let e = self.unexpected(&self.current_token);
            self.expect(Token::Colon, e)?;
            let is_ref = if matches!(self.current_token.token, Token::BitAnd) {
                self.next_token();
                true
            } else {
                false
            };
            let param_type = self.parse_type()?;
            params.push(FuncParam { name: param_name, param_type, span: start_span, kind, is_ref });
            if matches!(self.current_token.token, Token::Comma) {
                let e = self.unexpected(&self.current_token);
                self.expect(Token::Comma, e)?;
            } else if matches!(self.current_token.token, Token::RightParen) {
                break;
            } else {
                return Err(self.unexpected(&self.current_token));
            }
            assert(self.measure() < before.measure());
        }
        proof {
            lemma_params_wf(params@);
        }
        Ok(params)
    }

    /// The arguments of a call; the current token is `(`. On success the
    /// current token is the closing `)`.
    pub fn parse_call_args(&mut self) -> (r: Result<Vec<Expression>, ParseError>)
        requires
            old(self).wf(),
            !(old(self).current_token.token is Eof),
        ensures
            final(self).frame(old(self)),
            final(self).measure() < old(self).measure(),
            r matches Ok(v) ==> exprs_wf(v@),
        decreases MAX_DEPTH + 1 - old(self).depth, 1int,
    {
        let open_paren_tok = self.current_token.token.duplicate();
        let open_paren_span = self.current_token.span;
        let bumped = self.bump_paren_depth();
        self.next_token();
        self.skip_terminators();
        let mut args: Vec<Expression> = Vec::new();
        if matches!(self.current_token.token, Token::RightParen) {
            if bumped {
                self.paren_depth = self.paren_depth - 1;
            }
            proof {
                lemma_exprs_wf(args@);
            }
            return Ok(args);
        }
        loop
            invariant
                self.frame(old(self)),
                self.measure() < old(self).measure(),
                bumped ==> self.paren_depth > old(self).paren_depth,
                forall|k: int| 0 <= k < args.len() ==> expr_wf(#[trigger] args@[k]),
            decreases self.measure(),
        {
            let ghost before = *self;
            let arg = self.parse_expression(Precedence::Lowest)?;
            args.push(arg);
            self.skip_terminators();
            while self.paren_depth > 0 && matches!(self.peek_token.token, Token::Newline)
                invariant
                    self.frame(&before),
                    self.frame(old(self)),
                    bumped ==> self.paren_depth > old(self).paren_depth,
                decreases self.measure(),
            {
                self.next_token();
            }
            if matches!(self.peek_token.token, Token::Comma) {
                self.next_token();
                self.next_token();
                if matches!(self.current_token.token, Token::RightParen) {
                    break;
                }
            } else if matches!(self.peek_token.token, Token::RightParen) {
                self.next_token();
                break;
            } else {
                return Err(
                    ParseError::UnclosedDelimiter {
                        open_token: open_paren_tok,
                        open_span: open_paren_span,
                        expected_token: Token::RightParen,
                        found_tok: self.peek_token.token.duplicate(),
                        found_span: self.peek_token.span,
                    },
                );
            }
            assert(self.measure() < before.measure());
        }
        if bumped {
            self.paren_depth = self.paren_depth - 1;
        }
        proof {
            lemma_exprs_wf(args@);
        }
        Ok(args)
    }

    /// `fun(params) [ret] { body }` as a value; the current token is `fun`.
    pub fn parse_lambda(&mut self) -> (r: Result<Expression, ParseError>)
        requires
            old(self).wf(),
        ensures
            final(self).frame(old(self)),
            r is Ok ==> final(self).measure() < old(self).measure(),
            r matches Ok(e) ==> e is Lambda,
            !(old(self).current_token.token is Fun) ==> r == Err::<Expression, ParseError>(
                spec_unexpected(&old(self).current_token),
            ),
            r matches Ok(e) ==> expr_wf(e),
        decreases MAX_DEPTH + 1 - old(self).depth, 4int,
    {
        let start_span = self.current_token.span;
        let e = self.unexpected(&self.current_token);
        self.expect(Token::Fun, e)?;
        let open_paren_tok = self.current_token.token.duplicate();
        let open_paren_span = self.current_token.span;
        let e = self.unexpected(&self.current_token);
        self.expect(Token::LeftParen, e)?;
        let params = self.parse_func_params()?;
        let e = ParseError::UnclosedDelimiter {
            open_token: open_paren_tok,
            open_span: open_paren_span,
            expected_token: Token::RightParen,
            found_tok: self.current_token.token.duplicate(),
            found_span: self.current_token.span,
        };
        self.expect(Token::RightParen, e)?;
        let mut return_type: Option<Type> = None;
        if matches!(self.current_token.token, Token::LeftBracket) {
            let open_bracket_tok = self.current_token.token.duplicate();
            let open_bracket_span = self.current_token.span;
            self.next_token();
            let t = self.parse_type()?;
            return_type = Some(t);
            let e = ParseError::UnclosedDelimiter {
                open_token: open_bracket_tok,
                open_span: open_bracket_span,
                expected_token: Token::RightBracket,
                found_tok: self.current_token.token.duplicate(),
                found_span: self.current_token.span,
            };
            self.expect(Token::RightBracket, e)?;
        }
        let e = self.unexpected(&self.current_token);
        self.expect(Token::LeftBrace, e)?;
        let (body, _) = self.parse_block()?;
        Ok(Expression::Lambda { params, return_type, body, span: start_span })
    }

    /// A range `left:end` or `left..end` (the end may be missing); the current
    /// token is `:` or `..`.
    pub fn parse_infix_range(&mut self, left: Expression) -> (r: Result<Expression, ParseError>)
        requires
            old(self).wf(),
            old(self).current_token.token is Colon || old(self).current_token.token is DoubleDot,
        ensures
            final(self).frame(old(self)),
            final(self).measure() < old(self).measure(),
            r matches Ok(e) ==> e matches Expression::Range { range_kind, .. } && (range_kind == (
            if old(self).current_token.token is Colon {
                RangeKind::Exclusive
            } else {
                RangeKind::Inclusive
            })),
            expr_wf(left) ==> (r matches Ok(e) ==> expr_wf(e)),
        decreases MAX_DEPTH + 1 - old(self).depth, 1int,
    {
        let start_span = self.current_token.span;
        let range_kind = if matches!(self.current_token.token, Token::Colon) {
            RangeKind::Exclusive
        } else {
            RangeKind::Inclusive
        };
        self.next_token();
        let end = if matches!(self.peek_token.token, Token::RightBracket | Token::RightParen | Token::Comma
            | Token::Semicolon | Token::Newline) {
            None
        } else {
            let e = self.parse_expression(Precedence::Range)?;
            Some(Box::new(e))
        };
        Ok(Expression::Range { start: Some(Box::new(left)), end, range_kind, span: start_span })
    }

    /// `Name { field: value, ... }`; the current token is the name.
    #[verifier::rlimit(30)]
    pub fn parse_struct_literal(&mut self, start_span: Span) -> (r: Result<Expression, ParseError>)
        requires
            old(self).wf(),
        ensures
            final(self).frame(old(self)),
            r is Ok ==> final(self).measure() < old(self).measure(),
            r matches Ok(e) ==> (e matches Expression::StructLiteral { name, span, .. } && (old(
                self,
            ).current_token.token matches Token::Identifier(n) && name@ == n@) && span == start_span),
            r matches Ok(e) ==> expr_wf(e),
            !(old(self).current_token.token is Identifier) ==> r == Err::<Expression, ParseError>(
                ParseError::ExpectedIdentifier {
                    context: "in struct literal name",
                    found: old(self).current_token.token,
                    span: old(self).current_token.span,
                },
            ),
            old(self).current_token.token is Identifier && !(old(self).peek_token.token is LeftBrace) ==> r == Err::<
                Expression,
                ParseError,
            >(spec_unexpected(&old(self).peek_token)),
        decreases MAX_DEPTH + 1 - old(self).depth, 1int,
    {
        let ghost tok0 = self.current_token.token;
        let name = match &self.current_token.token {
            Token::Identifier(n) => n.clone(),
            _ => {
                return Err(
                    ParseError::ExpectedIdentifier {
                        context: "in struct literal name",
                        found: self.current_token.token.duplicate(),
                        span: self.current_token.span,
                    },
                );
            },
        };
        self.next_token();
        assert(tok0 matches Token::Identifier(n) && name@ == n@);
        let open_brace_tok = self.current_token.token.duplicate();
        let open_brace_span = self.current_token.span;
        let e = self.unexpected(&self.current_token);
        proof {
            if !(self.current_token.token is LeftBrace) {
                assert(self.current_token.token.spec_kind() != Token::LeftBrace.spec_kind());
            }
        }
        self.expect(Token::LeftBrace, e)?;
        assert(old(self).peek_token.token is LeftBrace);
        self.skip_terminators();
        let mut fields: Vec<StructLiteralField> = Vec::new();
        while !matches!(self.current_token.token, Token::RightBrace)
            invariant
                old(self).current_token.token is Identifier,
                old(self).peek_token.token is LeftBrace,
                self.frame(old(self)),
                self.measure() < old(self).measure(),
                forall|k: int| 0 <= k < fields.len() ==> expr_wf(*(#[trigger] fields@[k]).field_val),
            decreases self.measure(),
        {
            let ghost before = *self;
            let field_name = match &self.current_token.token {
                Token::Identifier(n) => n.clone(),
                _ => {
                    return Err(
                        ParseError::ExpectedIdentifier {
                            context: "in struct field name",
                            found: self.current_token.token.duplicate(),
                            span: self.current_token.span,
                        },
                    );
                },
            };
            self.next_token();
            let e = self.unexpected(&self.current_token);
            self.expect(Token::Colon, e)?;
            let v = self.parse_expression(Precedence::Lowest)?;
            fields.push(StructLiteralField { field_name, field_val: Box::new(v) });
            self.next_token();
            self.skip_terminators();
            if matches!(self.current_token.token, Token::Comma) {
                let e = self.unexpected(&self.current_token);
                self.expect(Token::Comma, e)?;
            } else if matches!(self.current_token.token, Token::RightBrace) {
                break;
            } else {
                return Err(self.unexpected(&self.current_token));
            }
            self.skip_terminators();
            assert(self.measure() < before.measure());
        }
        let e = ParseError::UnclosedDelimiter {
            open_token: open_brace_tok,
            open_span: open_brace_span,
            expected_token: Token::RightBrace,
            found_tok: self.current_token.token.duplicate(),
            found_span: self.current_token.span,
        };
        self.expect(Token::RightBrace, e)?;
        proof {
            lemma_fields_wf(fields@);
        }
        Ok(Expression::StructLiteral { name, fields, span: start_span })
    }

    fn skip_arm_separators(&mut self)
        requires
            old(self).wf(),
        ensures
            final(self).frame(old(self)),
            !(final(self).current_token.token is Newline || final(self).current_token.token is Comma),
    {
        while matches!(self.current_token.token, Token::Newline | Token::Comma)
            invariant
                self.frame(old(self)),
            decreases self.measure(),
        {
            self.next_token();
        }
    }
}

} // verus!
