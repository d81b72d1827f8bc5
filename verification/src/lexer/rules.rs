//! The lexical grammar of Violette, stated over the sequence of input chars.
//!
//! `lex(s, p)` is the token that starts at or after index `p` of `s`, with the
//! index where it starts and the index just after it.
use vstd::prelude::*;

use crate::lexer::chars::{digits_value, spec_is_ascii_alpha, spec_is_digit, spec_is_hex_digit, spec_is_letter, unicode_alphanumeric};
use crate::lexer::span::Position;
use crate::lexer::token::{spelling, PrimitiveType, Token, TokenView};

verus! {

/// The char at index `i`, or `'\0'` past the end of the input.
pub open spec fn char_at(s: Seq<char>, i: int) -> char {
    if 0 <= i < s.len() {
        s[i]
    } else {
        '\0'
    }
}

/// The index after `i`, staying at the end of the input once there.
pub open spec fn adv(s: Seq<char>, i: int) -> int {
    if i < s.len() {
        i + 1
    } else {
        i
    }
}

/// Line and column of index `i`: lines count from 1 and grow after each
/// `'\n'`; columns count from 1 on each line. Past the last char the column
/// stays on it (or is 0 right after a final newline).
pub open spec fn line_col(s: Seq<char>, i: nat) -> (int, int)
    decreases i,
{
    if i == 0 {
        if s.len() > 0 {
            (1, 1)
        } else {
            (1, 0)
        }
    } else {
        let (l, c) = line_col(s, (i - 1) as nat);
        let (l2, c2) = if char_at(s, i - 1) == '\n' {
            (l + 1, 0)
        } else {
            (l, c)
        };
        if i < s.len() {
            (l2, c2 + 1)
        } else {
            (l2, c2)
        }
    }
}

pub open spec fn position_at(s: Seq<char>, i: nat) -> Position {
    Position { line: line_col(s, i).0 as usize, col: line_col(s, i).1 as usize }
}

pub proof fn lemma_line_col_bounds(s: Seq<char>, i: nat)
    ensures
        1 <= line_col(s, i).0 <= i + 1,
        0 <= line_col(s, i).1 <= i + 1,
    decreases i,
{
    if i > 0 {
        lemma_line_col_bounds(s, (i - 1) as nat);
    }
}

/// First index at or after `i` whose char is not a blank (`' '` or `'\t'`).
pub open spec fn skip_blanks(s: Seq<char>, i: int) -> int
    decreases s.len() - i,
{
    if 0 <= i < s.len() && (s[i] == ' ' || s[i] == '\t') {
        skip_blanks(s, i + 1)
    } else {
        i
    }
}

/// Classes of chars that the lexer reads in runs.
#[derive(Clone, Copy)]
pub enum CharClass {
    /// Anything but a line break or `'\0'` (the body of a line comment).
    LineBody,
    /// `'\n'` and `'\r'`.
    LineBreak,
    /// Letters, `'_'` and decimal digits.
    Ident,
    /// Decimal digits.
    Digit,
    /// Alphanumeric chars (a type suffix of a number literal).
    Suffix,
    /// Digits after the given radix prefix char, and `'_'`.
    Radix(char),
}

impl CharClass {
    pub open spec fn contains(self, c: char) -> bool {
        match self {
            CharClass::LineBody => c != '\n' && c != '\r' && c != '\0',
            CharClass::LineBreak => c == '\n' || c == '\r',
            CharClass::Ident => spec_is_letter(c) || spec_is_digit(c),
            CharClass::Digit => spec_is_digit(c),
            CharClass::Suffix => unicode_alphanumeric(c),
            CharClass::Radix(prefix) => in_radix_class(prefix, c),
        }
    }
}

/// First index at or after `i` that is the end of input or whose char is not in `k`.
pub open spec fn run_end(s: Seq<char>, i: int, k: CharClass) -> int
    decreases s.len() - i,
{
    if 0 <= i < s.len() && k.contains(s[i]) {
        run_end(s, i + 1, k)
    } else {
        i
    }
}

/// The chars of the run that `run_end` walks over, leaving out every `'_'`.
pub open spec fn run_chars_no_underscore(s: Seq<char>, i: int, k: CharClass) -> Seq<char>
    decreases s.len() - i,
{
    if 0 <= i < s.len() && k.contains(s[i]) {
        let rest = run_chars_no_underscore(s, i + 1, k);
        if s[i] == '_' {
            rest
        } else {
            seq![s[i]] + rest
        }
    } else {
        seq![]
    }
}

/// The char that an escape `\c` stands for in a string literal.
pub open spec fn unescape(c: char) -> char {
    if c == 'n' {
        '\n'
    } else if c == 't' {
        '\t'
    } else if c == 'r' {
        '\r'
    } else if c == '0' {
        '\0'
    } else {
        c
    }
}

/// Scans the body of a string literal from index `i`: whether a closing
/// quote was met, the chars of the literal, and the index where the scan stopped
/// (the closing quote, or the `'\0'` / end of input that cut the literal short).
pub open spec fn string_body(s: Seq<char>, i: int) -> (bool, Seq<char>, int)
    decreases s.len() - i,
{
    let c = char_at(s, i);
    if c == '"' {
        (true, seq![], i)
    } else if c == '\0' {
        (false, seq![], i)
    } else if c == '\\' {
        let r = string_body(s, adv(s, adv(s, i)));
        (r.0, seq![unescape(char_at(s, i + 1))] + r.1, r.2)
    } else {
        let r = string_body(s, i + 1);
        (r.0, seq![c] + r.1, r.2)
    }
}

/// Scans a block comment body from `i` with `depth` comments still open:
/// the depth left when the scan stops and the index where it stops.
pub open spec fn block_comment(s: Seq<char>, i: int, depth: nat) -> (nat, int)
    decreases s.len() - i,
{
    if depth == 0 || char_at(s, i) == '\0' {
        (depth, i)
    } else if char_at(s, i) == '/' && char_at(s, i + 1) == '*' {
        block_comment(s, adv(s, adv(s, i)), depth + 1)
    } else if char_at(s, i) == '*' && char_at(s, i + 1) == '/' {
        block_comment(s, adv(s, adv(s, i)), (depth - 1) as nat)
    } else {
        block_comment(s, i + 1, depth)
    }
}

/// The digits class after a `0b`, `0o`, `0x` or `0X` prefix (underscores included).
pub open spec fn in_radix_class(prefix: char, c: char) -> bool {
    if prefix == 'b' {
        c == '0' || c == '1' || c == '_'
    } else if prefix == 'o' {
        ('0' <= c && c <= '7') || c == '_'
    } else {
        spec_is_hex_digit(c) || c == '_'
    }
}

pub open spec fn radix_of(prefix: char) -> int {
    if prefix == 'b' {
        2
    } else if prefix == 'o' {
        8
    } else {
        16
    }
}

/// The integer part of a number literal from index `i`: its digits (without
/// underscores) and the index after it. An underscore followed by an ASCII
/// letter starts a type suffix and ends the integer part.
pub open spec fn int_part(s: Seq<char>, i: int) -> (Seq<char>, int)
    decreases s.len() - i,
{
    if 0 <= i < s.len() && (spec_is_digit(s[i]) || s[i] == '_') {
        if s[i] == '_' && spec_is_ascii_alpha(char_at(s, i + 1)) {
            (seq![], i)
        } else {
            let r = int_part(s, i + 1);
            (if s[i] == '_' {
                r.0
            } else {
                seq![s[i]] + r.0
            }, r.1)
        }
    } else {
        (seq![], i)
    }
}

/// The token a number literal with type suffix `suffix` stands for.
pub open spec fn suffixed_number(suffix: Seq<char>, digits: Seq<char>, has_dot: bool) -> TokenView {
    let v = digits_value(digits, 10);
    if has_dot {
        if suffix == seq!['f', '3', '2'] {
            TokenView::Float32(digits)
        } else if suffix == seq!['f', '6', '4'] {
            TokenView::Float64(digits)
        } else {
            TokenView::Plain(Token::Illegal)
        }
    } else if suffix == seq!['i', '8'] {
        if v <= i8::MAX { TokenView::Plain(Token::Int8(v as i8)) } else { TokenView::Plain(Token::Illegal) }
    } else if suffix == seq!['i', '1', '6'] {
        if v <= i16::MAX { TokenView::Plain(Token::Int16(v as i16)) } else { TokenView::Plain(Token::Illegal) }
    } else if suffix == seq!['i', '3', '2'] {
        if v <= i32::MAX { TokenView::Plain(Token::Int32(v as i32)) } else { TokenView::Plain(Token::Illegal) }
    } else if suffix == seq!['i', '6', '4'] {
        if v <= i64::MAX { TokenView::Plain(Token::Int64(v as i64)) } else { TokenView::Plain(Token::Illegal) }
    } else if suffix == seq!['u', '8'] {
        if v <= u8::MAX { TokenView::Plain(Token::Uint8(v as u8)) } else { TokenView::Plain(Token::Illegal) }
    } else if suffix == seq!['u', '1', '6'] {
        if v <= u16::MAX { TokenView::Plain(Token::Uint16(v as u16)) } else { TokenView::Plain(Token::Illegal) }
    } else if suffix == seq!['u', '3', '2'] {
        if v <= u32::MAX { TokenView::Plain(Token::Uint32(v as u32)) } else { TokenView::Plain(Token::Illegal) }
    } else if suffix == seq!['u', '6', '4'] {
        if v <= u64::MAX { TokenView::Plain(Token::Uint64(v as u64)) } else { TokenView::Plain(Token::Illegal) }
    } else {
        TokenView::Plain(Token::Illegal)
    }
}

/// A number literal starting with a decimal digit at `q`: the token and the index after it.
pub open spec fn number_literal(s: Seq<char>, q: int) -> (TokenView, int) {
    let (int_digits, i1) = int_part(s, q);
    let has_dot = char_at(s, i1) == '.' && spec_is_digit(char_at(s, i1 + 1));
    let i2 = if has_dot { run_end(s, i1 + 1, CharClass::Digit) } else { i1 };
    let digits = if has_dot { int_digits + seq!['.'] + s.subrange(i1 + 1, i2) } else { int_digits };
    if char_at(s, i2) == '_' {
        let i3 = run_end(s, i2 + 1, CharClass::Suffix);
        (suffixed_number(s.subrange(i2 + 1, i3), digits, has_dot), i3)
    } else if has_dot {
        (TokenView::Float64(digits), i2)
    } else if digits_value(digits, 10) <= isize::MAX {
        (TokenView::Plain(Token::Int(digits_value(digits, 10) as isize)), i2)
    } else {
        (TokenView::Plain(Token::Illegal), i2)
    }
}

/// The keyword a word stands for, if any.
pub open spec fn keyword(w: Seq<char>) -> Option<Token> {
    if w == seq!['v', 'a', 'r'] { Some(Token::Var) }
    else if w == seq!['l', 'e', 't'] { Some(Token::Let) }
    else if w == seq!['c', 'o', 'n', 's', 't'] { Some(Token::Const) }
    else if w == seq!['i', 'f'] { Some(Token::If) }
    else if w == seq!['e', 'l', 's', 'e'] { Some(Token::Else) }
    else if w == seq!['f', 'o', 'r'] { Some(Token::For) }
    else if w == seq!['i', 'n'] { Some(Token::In) }
    else if w == seq!['c', 'o', 'n', 't', 'i', 'n', 'u', 'e'] { Some(Token::Continue) }
    else if w == seq!['b', 'r', 'e', 'a', 'k'] { Some(Token::Break) }
    else if w == seq!['m', 'a', 't', 'c', 'h'] { Some(Token::Match) }
    else if w == seq!['f', 'u', 'n'] { Some(Token::Fun) }
    else if w == seq!['r', 'e', 't', 'u', 'r', 'n'] { Some(Token::Return) }
    else if w == seq!['b', 'l', 'o', 'o', 'm'] { Some(Token::Bloom) }
    else if w == seq!['s', 't', 'r', 'u', 'c', 't'] { Some(Token::Struct) }
    else if w == seq!['i', 'n', 't', 'e', 'r', 'f', 'a', 'c', 'e'] { Some(Token::Interface) }
    else if w == seq!['t', 'y', 'p', 'e'] { Some(Token::Type) }
    else if w == seq!['o', 'p', 'e', 'n'] { Some(Token::Open) }
    else if w == seq!['l', 'o', 'c', 'a', 'l'] { Some(Token::Local) }
    else if w == seq!['i', 'm', 'p', 'o', 'r', 't'] { Some(Token::Import) }
    else if w == seq!['p', 'a', 'c', 'k', 'a', 'g', 'e'] { Some(Token::Package) }
    else if w == seq!['i', 'n', 't'] { Some(Token::PrimitiveType(PrimitiveType::Int)) }
    else if w == seq!['i', 'n', 't', '8'] { Some(Token::PrimitiveType(PrimitiveType::Int8)) }
    else if w == seq!['i', 'n', 't', '1', '6'] { Some(Token::PrimitiveType(PrimitiveType::Int16)) }
    else if w == seq!['i', 'n', 't', '3', '2'] { Some(Token::PrimitiveType(PrimitiveType::Int32)) }
    else if w == seq!['i', 'n', 't', '6', '4'] { Some(Token::PrimitiveType(PrimitiveType::Int64)) }
    else if w == seq!['u', 'i', 'n', 't'] { Some(Token::PrimitiveType(PrimitiveType::Uint)) }
    else if w == seq!['u', 'i', 'n', 't', '8'] { Some(Token::PrimitiveType(PrimitiveType::Uint8)) }
    else if w == seq!['u', 'i', 'n', 't', '1', '6'] { Some(Token::PrimitiveType(PrimitiveType::Uint16)) }
    else if w == seq!['u', 'i', 'n', 't', '3', '2'] { Some(Token::PrimitiveType(PrimitiveType::Uint32)) }
    else if w == seq!['u', 'i', 'n', 't', '6', '4'] { Some(Token::PrimitiveType(PrimitiveType::Uint64)) }
    else if w == seq!['f', 'l', 'o', 'a', 't', '3', '2'] { Some(Token::PrimitiveType(PrimitiveType::Float32)) }
    else if w == seq!['f', 'l', 'o', 'a', 't', '6', '4'] { Some(Token::PrimitiveType(PrimitiveType::Float64)) }
    else if w == seq!['b', 'o', 'o', 'l'] { Some(Token::PrimitiveType(PrimitiveType::Bool)) }
    else if w == seq!['s', 't', 'r', 'i', 'n', 'g'] { Some(Token::PrimitiveType(PrimitiveType::String)) }
    else if w == seq!['t', 'r', 'u', 'e'] { Some(Token::Bool(true)) }
    else if w == seq!['f', 'a', 'l', 's', 'e'] { Some(Token::Bool(false)) }
    else { None }
}

/// One token read at index `start`, ending at index `end` (exclusive).
pub struct Lexed {
    pub token: TokenView,
    pub start: int,
    pub end: int,
}

pub open spec fn plain(t: Token, q: int, len: int) -> Lexed {
    Lexed { token: TokenView::Plain(t), start: q, end: q + len }
}

/// A one-char operator that may be followed by `=`, or by a second char.
pub open spec fn pick(n: char, c1: char, t1: Token, c2: char, t2: Token, t: Token, q: int) -> Lexed {
    if n == c1 {
        plain(t1, q, 2)
    } else if n == c2 {
        plain(t2, q, 2)
    } else {
        plain(t, q, 1)
    }
}

/// Where lexing resumes after a comment that starts at `q` and is closed,
/// or `None` when no such comment starts at `q`.
pub open spec fn comment_end(s: Seq<char>, q: int) -> Option<int> {
    let c = char_at(s, q);
    let n = char_at(s, q + 1);
    if c == '/' && n == '/' {
        Some(run_end(s, q, CharClass::LineBody))
    } else if c == '/' && n == '*' && block_comment(s, q + 2, 1).0 == 0 {
        Some(block_comment(s, q + 2, 1).1)
    } else {
        None
    }
}

/// The token found at or after index `p` of `s`: blanks and closed comments
/// before it are skipped.
pub open spec fn lex(s: Seq<char>, p: int) -> Lexed
    decreases s.len() - p,
{
    let q = skip_blanks(s, p);
    match comment_end(s, q) {
        Some(j) => if p <= q < j <= s.len() {
            lex(s, j)
        } else {
            plain(Token::Illegal, q, 0)
        },
        None => token_at(s, q),
    }
}

pub open spec fn is_single_char_token(c: char) -> bool {
    c == ';' || c == ':' || c == '{' || c == '}' || c == '(' || c == ')' || c == '[' || c == ']' || c == ','
        || c == '#' || c == '^'
}

/// The tokens made of one char.
pub open spec fn single_char_token(c: char) -> Token {
    if c == ';' { Token::Semicolon }
    else if c == ':' { Token::Colon }
    else if c == '{' { Token::LeftBrace }
    else if c == '}' { Token::RightBrace }
    else if c == '(' { Token::LeftParen }
    else if c == ')' { Token::RightParen }
    else if c == '[' { Token::LeftBracket }
    else if c == ']' { Token::RightBracket }
    else if c == ',' { Token::Comma }
    else if c == '#' { Token::BitOr }
    else { Token::BitXOR }
}

pub open spec fn is_operator_char(c: char) -> bool {
    c == '%' || c == '|' || c == '.' || c == '&' || c == '~' || c == '<' || c == '>' || c == '=' || c == '!'
        || c == '+' || c == '-' || c == '*'
}

/// The operators of one or two chars that start with `c`, given the char `n` after it.
pub open spec fn operator_token(c: char, n: char, q: int) -> Lexed {
    if c == '%' { pick(n, '=', Token::ModAndAssign, '=', Token::ModAndAssign, Token::Modulus, q) }
    else if c == '|' { pick(n, '|', Token::LogicOr, '|', Token::LogicOr, Token::Pipe, q) }
    else if c == '.' { pick(n, '.', Token::DoubleDot, '.', Token::DoubleDot, Token::Dot, q) }
    else if c == '&' { pick(n, '&', Token::LogicAnd, '&', Token::LogicAnd, Token::BitAnd, q) }
    else if c == '~' { pick(n, '>', Token::Sprout, '>', Token::Sprout, Token::BitNot, q) }
    else if c == '<' { pick(n, '<', Token::LeftShift, '=', Token::LessOrEquals, Token::Less, q) }
    else if c == '>' { pick(n, '>', Token::RightShift, '=', Token::GreaterOrEquals, Token::Greater, q) }
    else if c == '=' { pick(n, '=', Token::Equals, '>', Token::FatArrow, Token::Assign, q) }
    else if c == '!' { pick(n, '=', Token::NotEquals, '=', Token::NotEquals, Token::LogicNot, q) }
    else if c == '+' { pick(n, '=', Token::AddAndAssign, '+', Token::Increment, Token::Add, q) }
    else if c == '-' { pick(n, '=', Token::SubAndAssign, '-', Token::Decrement, Token::Subtract, q) }
    else { pick(n, '=', Token::MulAndAssign, '*', Token::Power, Token::Multiply, q) }
}

/// A string literal whose opening quote is at `q`.
pub open spec fn string_token(s: Seq<char>, q: int) -> Lexed {
    let (closed, body, stop) = string_body(s, q + 1);
    if closed {
        Lexed { token: TokenView::Str(body), start: q, end: stop + 1 }
    } else {
        Lexed { token: TokenView::Plain(Token::Illegal), start: q, end: adv(s, stop) }
    }
}

/// A token that starts with `/` and is not a closed comment.
pub open spec fn slash_token(s: Seq<char>, q: int) -> Lexed {
    let n = char_at(s, q + 1);
    if n == '=' {
        plain(Token::DivAndAssign, q, 2)
    } else if n == '*' {
        Lexed { token: TokenView::Plain(Token::Illegal), start: q, end: block_comment(s, q + 2, 1).1 }
    } else {
        plain(Token::Divide, q, 1)
    }
}

/// An integer literal written in base 2, 8 or 16 (`0b`, `0o`, `0x`, `0X`) at `q`.
pub open spec fn radix_token(s: Seq<char>, q: int) -> Lexed {
    let n = char_at(s, q + 1);
    let j = run_end(s, q + 2, CharClass::Radix(n));
    let digits = run_chars_no_underscore(s, q + 2, CharClass::Radix(n));
    if digits.len() == 0 {
        Lexed { token: TokenView::Plain(Token::Illegal), start: q, end: j }
    } else {
        let v = digits_value(digits, radix_of(n));
        Lexed { token: TokenView::Plain(Token::Int(if v <= isize::MAX { v as isize } else { 0 })), start: q, end: j }
    }
}

/// A keyword or identifier whose first letter is at `q`.
pub open spec fn word_token(s: Seq<char>, q: int) -> Lexed {
    let j = run_end(s, q, CharClass::Ident);
    let w = s.subrange(q, j);
    Lexed {
        token: match keyword(w) {
            Some(t) => TokenView::Plain(t),
            None => TokenView::Identifier(w),
        },
        start: q,
        end: j,
    }
}

/// The token that starts at index `q` (where no closed comment starts).
pub open spec fn token_at(s: Seq<char>, q: int) -> Lexed {
    let c = char_at(s, q);
    let n = char_at(s, q + 1);
    if is_single_char_token(c) {
        plain(single_char_token(c), q, 1)
    } else if is_operator_char(c) {
        operator_token(c, n, q)
    } else if c == '"' {
        string_token(s, q)
    } else if c == '/' {
        slash_token(s, q)
    } else if c == '\0' {
        plain(Token::Eof, q, 0)
    } else if c == '\n' || c == '\r' {
        Lexed { token: TokenView::Plain(Token::Newline), start: q, end: run_end(s, q, CharClass::LineBreak) }
    } else if c == '0' && (n == 'b' || n == 'o' || n == 'x' || n == 'X') {
        radix_token(s, q)
    } else if spec_is_digit(c) {
        let (t, j) = number_literal(s, q);
        Lexed { token: t, start: q, end: j }
    } else if spec_is_letter(c) {
        word_token(s, q)
    } else {
        plain(Token::Illegal, q, 1)
    }
}

} // verus!

verus! {

pub proof fn lemma_skip_blanks_bounds(s: Seq<char>, i: int)
    requires
        0 <= i <= s.len(),
    ensures
        i <= skip_blanks(s, i) <= s.len(),
    decreases s.len() - i,
{
    if 0 <= i < s.len() && (s[i] == ' ' || s[i] == '\t') {
        lemma_skip_blanks_bounds(s, i + 1);
    }
}

pub proof fn lemma_run_end_bounds(s: Seq<char>, i: int, k: CharClass)
    requires
        0 <= i <= s.len(),
    ensures
        i <= run_end(s, i, k) <= s.len(),
        forall|j: int| i <= j < run_end(s, i, k) ==> k.contains(#[trigger] s[j]),
    decreases s.len() - i,
{
    if 0 <= i < s.len() && k.contains(s[i]) {
        lemma_run_end_bounds(s, i + 1, k);
    }
}

pub proof fn lemma_run_chars_in_class(s: Seq<char>, i: int, k: CharClass)
    ensures
        forall|j: int|
            0 <= j < run_chars_no_underscore(s, i, k).len() ==> k.contains(
                #[trigger] run_chars_no_underscore(s, i, k)[j],
            ) && run_chars_no_underscore(s, i, k)[j] != '_',
    decreases s.len() - i,
{
    if 0 <= i < s.len() && k.contains(s[i]) {
        lemma_run_chars_in_class(s, i + 1, k);
        let rest = run_chars_no_underscore(s, i + 1, k);
        if s[i] != '_' {
            assert forall|j: int| 0 <= j < rest.len() + 1 implies k.contains(#[trigger] (seq![s[i]] + rest)[j])
                && (seq![s[i]] + rest)[j] != '_' by {
                if j > 0 {
                    assert((seq![s[i]] + rest)[j] == rest[j - 1]);
                }
            }
        }
    }
}

pub proof fn lemma_int_part(s: Seq<char>, i: int)
    requires
        0 <= i <= s.len(),
    ensures
        i <= int_part(s, i).1 <= s.len(),
        forall|j: int| 0 <= j < int_part(s, i).0.len() ==> crate::lexer::chars::spec_is_digit(
            #[trigger] int_part(s, i).0[j],
        ),
    decreases s.len() - i,
{
    if 0 <= i < s.len() && (spec_is_digit(s[i]) || s[i] == '_') {
        if !(s[i] == '_' && spec_is_ascii_alpha(char_at(s, i + 1))) {
            lemma_int_part(s, i + 1);
            let r = int_part(s, i + 1);
            if s[i] != '_' {
                assert forall|j: int| 0 <= j < r.0.len() + 1 implies spec_is_digit(#[trigger] (seq![s[i]] + r.0)[j]) by {
                    if j > 0 {
                        assert((seq![s[i]] + r.0)[j] == r.0[j - 1]);
                    }
                }
            }
        }
    }
}

pub proof fn lemma_string_body(s: Seq<char>, i: int)
    requires
        0 <= i <= s.len(),
    ensures
        i <= string_body(s, i).2 <= s.len(),
        string_body(s, i).0 ==> string_body(s, i).2 < s.len(),
    decreases s.len() - i,
{
    let c = char_at(s, i);
    if c == '"' {
    } else if c == '\0' {
    } else if c == '\\' {
        lemma_string_body(s, adv(s, adv(s, i)));
    } else {
        lemma_string_body(s, i + 1);
    }
}

pub proof fn lemma_block_comment(s: Seq<char>, i: int, depth: nat)
    requires
        0 <= i <= s.len(),
    ensures
        i <= block_comment(s, i, depth).1 <= s.len(),
    decreases s.len() - i,
{
    if depth == 0 || char_at(s, i) == '\0' {
    } else if char_at(s, i) == '/' && char_at(s, i + 1) == '*' {
        lemma_block_comment(s, adv(s, adv(s, i)), depth + 1);
    } else if char_at(s, i) == '*' && char_at(s, i + 1) == '/' {
        lemma_block_comment(s, adv(s, adv(s, i)), (depth - 1) as nat);
    } else {
        lemma_block_comment(s, i + 1, depth);
    }
}

} // verus!

verus! {

pub proof fn lemma_number_literal(s: Seq<char>, q: int)
    requires
        0 <= q < s.len(),
        spec_is_digit(s[q]),
    ensures
        q < number_literal(s, q).1 <= s.len(),
{
    lemma_int_part(s, q);
    let (d, i1) = int_part(s, q);
    assert(i1 > q) by {
        lemma_int_part(s, q + 1);
    }
    let has_dot = char_at(s, i1) == '.' && spec_is_digit(char_at(s, i1 + 1));
    if has_dot {
        lemma_run_end_bounds(s, i1 + 1, CharClass::Digit);
    }
    let i2 = if has_dot { run_end(s, i1 + 1, CharClass::Digit) } else { i1 };
    if char_at(s, i2) == '_' {
        lemma_run_end_bounds(s, i2 + 1, CharClass::Suffix);
    }
}

/// What every token read from a valid index satisfies: it lies within the
/// input after the index; an end-of-file token is empty and stands on a
/// `'\0'` (or the end); every other token is at least one char long.
pub proof fn lemma_lex(s: Seq<char>, p: int)
    requires
        0 <= p <= s.len(),
    ensures
        p <= lex(s, p).start <= lex(s, p).end <= s.len(),
        lex(s, p).token == TokenView::Plain(Token::Eof) ==> lex(s, p).end == lex(s, p).start && char_at(
            s,
            lex(s, p).start,
        ) == '\0',
        lex(s, p).token != TokenView::Plain(Token::Eof) ==> lex(s, p).end > lex(s, p).start,
    decreases s.len() - p,
{
    let q = skip_blanks(s, p);
    lemma_skip_blanks_bounds(s, p);
    match comment_end(s, q) {
        Some(j) => {
            let c = char_at(s, q);
            let n = char_at(s, q + 1);
            if c == '/' && n == '/' {
                lemma_run_end_bounds(s, q + 1, CharClass::LineBody);
                assert(run_end(s, q, CharClass::LineBody) == run_end(s, q + 1, CharClass::LineBody));
            } else {
                lemma_block_comment(s, q + 2, 1);
            }
            lemma_lex(s, j);
        },
        None => {
            let c = char_at(s, q);
            let n = char_at(s, q + 1);
            if is_single_char_token(c) || is_operator_char(c) {
            } else if c == '"' {
                lemma_string_body(s, q + 1);
            } else if c == '/' {
                if n == '*' {
                    lemma_block_comment(s, q + 2, 1);
                }
            } else if c == '\0' {
            } else if c == '\n' || c == '\r' {
                lemma_run_end_bounds(s, q + 1, CharClass::LineBreak);
            } else if c == '0' && (n == 'b' || n == 'o' || n == 'x' || n == 'X') {
                lemma_run_end_bounds(s, q + 2, CharClass::Radix(n));
            } else if spec_is_digit(c) {
                lemma_number_literal(s, q);
            } else if spec_is_letter(c) {
                lemma_run_end_bounds(s, q + 1, CharClass::Ident);
            }
        },
    }
}

/// After an end-of-file token, reading again gives the same empty token.
pub proof fn lemma_lex_eof_sticky(s: Seq<char>, p: int)
    requires
        0 <= p <= s.len(),
        lex(s, p).token == TokenView::Plain(Token::Eof),
    ensures
        lex(s, lex(s, p).end) == lex(s, p),
{
    lemma_lex(s, p);
    let e = lex(s, p).end;
    assert(skip_blanks(s, e) == e);
    assert(comment_end(s, e) is None);
}

} // verus!

verus! {

/// Every operator or punctuation token the lexer reads is written in the
/// source exactly as the token is spelled: the chars it spans are its
/// spelling (so `-=` reads as `SubAndAssign`, `>=` as `GreaterOrEquals`).
pub proof fn law_lexed_token_is_its_spelling(s: Seq<char>, p: int)
    requires
        0 <= p <= s.len(),
    ensures
        lex(s, p).token matches TokenView::Plain(t) ==> (spelling(t) is Some ==> s.subrange(
            lex(s, p).start,
            lex(s, p).end,
        ) == spelling(t).unwrap()),
    decreases s.len() - p,
{
    lemma_lex(s, p);
    let q = skip_blanks(s, p);
    lemma_skip_blanks_bounds(s, p);
    match comment_end(s, q) {
        Some(j) => {
            if p <= q < j <= s.len() {
                law_lexed_token_is_its_spelling(s, j);
            }
        },
        None => {
            let l = token_at(s, q);
            let c = char_at(s, q);
            let n = char_at(s, q + 1);
            if l.token is Plain && spelling(l.token->Plain_0) is Some {
                if is_single_char_token(c) || is_operator_char(c) || c == '/' {
                    assert(q < s.len());
                    assert(s.subrange(q, q + 1) =~= seq![c]);
                    if l.end == q + 2 {
                        assert(q + 1 < s.len()) by {
                            if q + 1 >= s.len() {
                                assert(n == '\0');
                            }
                        }
                        assert(s.subrange(q, q + 2) =~= seq![c, n]);
                    }
                }
            }
        },
    }
}

} // verus!
