//! The one-line text of a parse error, and the `{:?}` text of the error and
//! of the places it holds.
use vstd::prelude::*;

use crate::diagnostics::token_text::{token_debug, token_debug_text};
use crate::lexer::span::{Position, Span};
use crate::parser::error::ParseError;
use crate::parser::parser::MAX_DEPTH;
use crate::text::{debug_quoted, digits_text, join_strings, joined, str_debug, string_from, string_push_str, texts, usize_text};

verus! {

/// `{:?}` of a position.
pub open spec fn position_debug_text(p: Position) -> Seq<char> {
    "Position { line: "@ + digits_text(p.line as nat) + ", col: "@ + digits_text(p.col as nat) + " }"@
}

/// `{:?}` of a span.
pub open spec fn span_debug_text(s: Span) -> Seq<char> {
    "Span { start: "@ + position_debug_text(s.start) + ", end: "@ + position_debug_text(s.end) + " }"@
}

/// `{:?}` of a struct-like value: its name and its `field: value` pieces.
pub open spec fn record_text(name: Seq<char>, fields: Seq<Seq<char>>) -> Seq<char> {
    name + " { "@ + joined(fields, ", "@) + " }"@
}

/// `field: value`.
pub open spec fn field_text(name: Seq<char>, value: Seq<char>) -> Seq<char> {
    name + ": "@ + value
}

/// `{:?}` of a parse error.
pub open spec fn parse_error_debug_text(e: ParseError) -> Seq<char> {
    match e {
        ParseError::ExpectedIdentifier { context, found, span } => record_text(
            "ExpectedIdentifier"@,
            seq![
                field_text("context"@, debug_quoted(context@)),
                field_text("found"@, token_debug_text(found)),
                field_text("span"@, span_debug_text(span)),
            ],
        ),
        ParseError::ExpectedExpression { context, found, span } => record_text(
            "ExpectedExpression"@,
            seq![
                field_text("context"@, debug_quoted(context@)),
                field_text("found"@, token_debug_text(found)),
                field_text("span"@, span_debug_text(span)),
            ],
        ),
        ParseError::ExpectedAssign { context, found, span } => record_text(
            "ExpectedAssign"@,
            seq![
                field_text("context"@, debug_quoted(context@)),
                field_text("found"@, token_debug_text(found)),
                field_text("span"@, span_debug_text(span)),
            ],
        ),
        ParseError::UnclosedDelimiter { open_token, open_span, expected_token, found_tok, found_span } => record_text(
            "UnclosedDelimiter"@,
            seq![
                field_text("open_token"@, token_debug_text(open_token)),
                field_text("open_span"@, span_debug_text(open_span)),
                field_text("expected_token"@, token_debug_text(expected_token)),
                field_text("found_tok"@, token_debug_text(found_tok)),
                field_text("found_span"@, span_debug_text(found_span)),
            ],
        ),
        ParseError::ExpectedFatArrow { found, span } => record_text(
            "ExpectedFatArrow"@,
            seq![field_text("found"@, token_debug_text(found)), field_text("span"@, span_debug_text(span))],
        ),
        ParseError::ExpectedType { context, found, span } => record_text(
            "ExpectedType"@,
            seq![
                field_text("context"@, debug_quoted(context@)),
                field_text("found"@, token_debug_text(found)),
                field_text("span"@, span_debug_text(span)),
            ],
        ),
        ParseError::InvalidTypeSyntax { desc, span } => record_text(
            "InvalidTypeSyntax"@,
            seq![field_text("desc"@, debug_quoted(desc@)), field_text("span"@, span_debug_text(span))],
        ),
        ParseError::InvalidForLoopSyntax { span } => record_text(
            "InvalidForLoopSyntax"@,
            seq![field_text("span"@, span_debug_text(span))],
        ),
        ParseError::InvalidElseBranch { found, span } => record_text(
            "InvalidElseBranch"@,
            seq![field_text("found"@, token_debug_text(found)), field_text("span"@, span_debug_text(span))],
        ),
        ParseError::InvalidSyntaxInExtend { found, span } => record_text(
            "InvalidSyntaxInExtend"@,
            seq![field_text("found"@, token_debug_text(found)), field_text("span"@, span_debug_text(span))],
        ),
        ParseError::UnexpectedEof { expected, span } => record_text(
            "UnexpectedEof"@,
            seq![field_text("expected"@, debug_quoted(expected@)), field_text("span"@, span_debug_text(span))],
        ),
        ParseError::TooDeep { span } => record_text("TooDeep"@, seq![field_text("span"@, span_debug_text(span))]),
        ParseError::UnexpectedToken { token, span } => record_text(
            "UnexpectedToken"@,
            seq![field_text("token"@, token_debug_text(token)), field_text("span"@, span_debug_text(span))],
        ),
    }
}

/// `line:col` of the start of a span.
pub open spec fn start_text(s: Span) -> Seq<char> {
    digits_text(s.start.line as nat) + ":"@ + digits_text(s.start.col as nat)
}

/// The message of a parse error: unexpected tokens, an early end of the
/// file and too deep nesting are told in words, any other error by its
/// `{:?}` text.
pub open spec fn parse_error_text(e: ParseError) -> Seq<char> {
    match e {
        ParseError::UnexpectedToken { token, span } => "unexpected token: "@ + token_debug_text(token) + " at "@
            + start_text(span),
        ParseError::UnexpectedEof { expected, span } => "unexpected end of file, expected "@ + expected@
            + " at the "@ + start_text(span),
        ParseError::TooDeep { span } => "nesting too deep (limit "@ + digits_text(MAX_DEPTH as nat) + ") at "@
            + start_text(span) + " — check for unbalanced delimiters"@,
        _ => "not ready yet or idk, "@ + parse_error_debug_text(e),
    }
}

/// `name: value`.
fn field(name: &str, value: &str) -> (r: String)
    ensures
        r@ == field_text(name@, value@),
{
    proof {
        reveal_strlit(": ");
    }
    let mut r = string_from(name);
    string_push_str(&mut r, ": ");
    string_push_str(&mut r, value);
    r
}

/// `name { f1, f2, .. }`.
fn record(name: &str, fields: &Vec<String>) -> (r: String)
    ensures
        r@ == record_text(name@, texts(fields@)),
{
    proof {
        reveal_strlit(" { ");
        reveal_strlit(", ");
        reveal_strlit(" }");
    }
    let inner = join_strings(fields, ", ");
    let mut r = string_from(name);
    string_push_str(&mut r, " { ");
    string_push_str(&mut r, inner.as_str());
    string_push_str(&mut r, " }");
    r
}

/// `name { a }`.
fn record1(name: &str, a: String) -> (r: String)
    ensures
        r@ == record_text(name@, seq![a@]),
{
    let ghost sa = a@;
    let v = vec![a];
    assert(texts(v@) =~= seq![sa]);
    record(name, &v)
}

/// `name { a, b }`.
fn record2(name: &str, a: String, b: String) -> (r: String)
    ensures
        r@ == record_text(name@, seq![a@, b@]),
{
    let ghost (sa, sb) = (a@, b@);
    let v = vec![a, b];
    assert(texts(v@) =~= seq![sa, sb]);
    record(name, &v)
}

/// `name { a, b, c }`.
fn record3(name: &str, a: String, b: String, c: String) -> (r: String)
    ensures
        r@ == record_text(name@, seq![a@, b@, c@]),
{
    let ghost (sa, sb, sc) = (a@, b@, c@);
    let v = vec![a, b, c];
    assert(texts(v@) =~= seq![sa, sb, sc]);
    record(name, &v)
}

/// `name { a, b, c, d, e }`.
fn record5(name: &str, a: String, b: String, c: String, d: String, e: String) -> (r: String)
    ensures
        r@ == record_text(name@, seq![a@, b@, c@, d@, e@]),
{
    let ghost (sa, sb, sc, sd, se) = (a@, b@, c@, d@, e@);
    let v = vec![a, b, c, d, e];
    assert(texts(v@) =~= seq![sa, sb, sc, sd, se]);
    record(name, &v)
}

/// `{:?}` of a position.
pub fn position_debug(p: Position) -> (r: String)
    ensures
        r@ == position_debug_text(p),
{
    proof {
        reveal_strlit("Position { line: ");
        reveal_strlit(", col: ");
        reveal_strlit(" }");
    }
    let mut r = string_from("Position { line: ");
    let l = usize_text(p.line);
    string_push_str(&mut r, l.as_str());
    string_push_str(&mut r, ", col: ");
    let c = usize_text(p.col);
    string_push_str(&mut r, c.as_str());
    string_push_str(&mut r, " }");
    r
}

/// `{:?}` of a span.
pub fn span_debug(s: Span) -> (r: String)
    ensures
        r@ == span_debug_text(s),
{
    proof {
        reveal_strlit("Span { start: ");
        reveal_strlit(", end: ");
        reveal_strlit(" }");
    }
    let mut r = string_from("Span { start: ");
    let a = position_debug(s.start);
    string_push_str(&mut r, a.as_str());
    string_push_str(&mut r, ", end: ");
    let b = position_debug(s.end);
    string_push_str(&mut r, b.as_str());
    string_push_str(&mut r, " }");
    r
}

/// `found: <token>` or another field that holds a token.
fn token_field(name: &str, t: &crate::lexer::token::Token) -> (r: String)
    ensures
        r@ == field_text(name@, token_debug_text(*t)),
{
    let d = token_debug(t);
    field(name, d.as_str())
}

/// A field that holds a span.
fn span_field(name: &str, s: Span) -> (r: String)
    ensures
        r@ == field_text(name@, span_debug_text(s)),
{
    let d = span_debug(s);
    field(name, d.as_str())
}

/// A field that holds a piece of text, quoted as `{:?}` quotes it.
fn quoted_field(name: &str, s: &str) -> (r: String)
    ensures
        r@ == field_text(name@, debug_quoted(s@)),
{
    let d = str_debug(s);
    field(name, d.as_str())
}

/// `{:?}` of a parse error.
pub fn parse_error_debug(e: &ParseError) -> (r: String)
    ensures
        r@ == parse_error_debug_text(*e),
{
    proof {
        reveal_strlit("ExpectedIdentifier");
        reveal_strlit("ExpectedExpression");
        reveal_strlit("ExpectedAssign");
        reveal_strlit("UnclosedDelimiter");
        reveal_strlit("ExpectedFatArrow");
        reveal_strlit("ExpectedType");
        reveal_strlit("InvalidTypeSyntax");
        reveal_strlit("InvalidForLoopSyntax");
        reveal_strlit("InvalidElseBranch");
        reveal_strlit("InvalidSyntaxInExtend");
        reveal_strlit("UnexpectedEof");
        reveal_strlit("TooDeep");
        reveal_strlit("UnexpectedToken");
        reveal_strlit("context");
        reveal_strlit("found");
        reveal_strlit("span");
        reveal_strlit("open_token");
        reveal_strlit("open_span");
        reveal_strlit("expected_token");
        reveal_strlit("found_tok");
        reveal_strlit("found_span");
        reveal_strlit("desc");
        reveal_strlit("expected");
        reveal_strlit("token");
    }
    match e {
        ParseError::ExpectedIdentifier { context, found, span } => record3(
            "ExpectedIdentifier",
            quoted_field("context", context),
            token_field("found", found),
            span_field("span", *span),
        ),
        ParseError::ExpectedExpression { context, found, span } => record3(
            "ExpectedExpression",
            quoted_field("context", context),
            token_field("found", found),
            span_field("span", *span),
        ),
        ParseError::ExpectedAssign { context, found, span } => record3(
            "ExpectedAssign",
            quoted_field("context", context),
            token_field("found", found),
            span_field("span", *span),
        ),
        ParseError::UnclosedDelimiter { open_token, open_span, expected_token, found_tok, found_span } => record5(
            "UnclosedDelimiter",
            token_field("open_token", open_token),
            span_field("open_span", *open_span),
            token_field("expected_token", expected_token),
            token_field("found_tok", found_tok),
            span_field("found_span", *found_span),
        ),
        ParseError::ExpectedFatArrow { found, span } => record2(
            "ExpectedFatArrow",
            token_field("found", found),
            span_field("span", *span),
        ),
        ParseError::ExpectedType { context, found, span } => record3(
            "ExpectedType",
            quoted_field("context", context),
            token_field("found", found),
            span_field("span", *span),
        ),
        ParseError::InvalidTypeSyntax { desc, span } => record2(
            "InvalidTypeSyntax",
            quoted_field("desc", desc),
            span_field("span", *span),
        ),
        ParseError::InvalidForLoopSyntax { span } => record1("InvalidForLoopSyntax", span_field("span", *span)),
        ParseError::InvalidElseBranch { found, span } => record2(
            "InvalidElseBranch",
            token_field("found", found),
            span_field("span", *span),
        ),
        ParseError::InvalidSyntaxInExtend { found, span } => record2(
            "InvalidSyntaxInExtend",
            token_field("found", found),
            span_field("span", *span),
        ),
        ParseError::UnexpectedEof { expected, span } => record2(
            "UnexpectedEof",
            quoted_field("expected", expected),
            span_field("span", *span),
        ),
        ParseError::TooDeep { span } => record1("TooDeep", span_field("span", *span)),
        ParseError::UnexpectedToken { token, span } => record2(
            "UnexpectedToken",
            token_field("token", token),
            span_field("span", *span),
        ),
    }
}

/// `line:col` of the start of a span.
fn start_of(s: Span) -> (r: String)
    ensures
        r@ == start_text(s),
{
    proof {
        reveal_strlit(":");
    }
    let mut r = usize_text(s.start.line);
    string_push_str(&mut r, ":");
    let c = usize_text(s.start.col);
    string_push_str(&mut r, c.as_str());
    r
}

impl ParseError {
    /// The message of the error, as a build reports it.
    pub fn message(&self) -> (r: String)
        ensures
            r@ == parse_error_text(*self),
    {
        proof {
            reveal_strlit("unexpected token: ");
            reveal_strlit(" at ");
            reveal_strlit("unexpected end of file, expected ");
            reveal_strlit(" at the ");
            reveal_strlit("nesting too deep (limit ");
            reveal_strlit(") at ");
            reveal_strlit(" — check for unbalanced delimiters");
            reveal_strlit("not ready yet or idk, ");
        }
        match self {
            ParseError::UnexpectedToken { token, span } => {
                let mut r = string_from("unexpected token: ");
                let t = token_debug(token);
                string_push_str(&mut r, t.as_str());
                string_push_str(&mut r, " at ");
                let at = start_of(*span);
                string_push_str(&mut r, at.as_str());
                r
            },
            ParseError::UnexpectedEof { expected, span } => {
                let mut r = string_from("unexpected end of file, expected ");
                string_push_str(&mut r, expected);
                string_push_str(&mut r, " at the ");
                let at = start_of(*span);
                string_push_str(&mut r, at.as_str());
                r
            },
            ParseError::TooDeep { span } => {
                let mut r = string_from("nesting too deep (limit ");
                let limit = usize_text(MAX_DEPTH as usize);
                string_push_str(&mut r, limit.as_str());
                string_push_str(&mut r, ") at ");
                let at = start_of(*span);
                string_push_str(&mut r, at.as_str());
                string_push_str(&mut r, " — check for unbalanced delimiters");
                r
            },
            _ => {
                let mut r = string_from("not ready yet or idk, ");
                let d = parse_error_debug(self);
                string_push_str(&mut r, d.as_str());
                r
            },
        }
    }
}

} // verus!
