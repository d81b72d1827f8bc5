use vstd::prelude::*;

verus! {

/// Lexical token of Violette source code.
///
/// Float literals keep the digits of the literal as written (for example
/// `"42.5"`); turning them into a machine float is left to the consumer.
#[derive(Debug, Clone, PartialEq)]
pub enum Token {
    /// Identifier name (e.g., `foo`, `calculateSum`).
    Identifier(String),
    /// Keyword `let`.
    Let,
    /// Keyword `var`.
    Var,
    /// Keyword `const`.
    Const,
    /// Keyword `if`.
    If,
    /// Keyword `else`.
    Else,
    /// Keyword `for`.
    For,
    /// Keyword `in`.
    In,
    /// Keyword `continue`.
    Continue,
    /// Keyword `break`.
    Break,
    /// Keyword `match`.
    Match,
    /// Keyword `fun`.
    Fun,
    /// Keyword `return`.
    Return,
    /// Keyword `bloom`.
    Bloom,
    /// Keyword `struct`.
    Struct,
    /// Keyword `interface`.
    Interface,
    /// Keyword `type`.
    Type,
    /// Keyword `open`.
    Open,
    /// Keyword `local`.
    Local,
    /// Keyword `while` (the lexer's keyword table does not produce it).
    While,
    /// Keyword `extern` (the lexer's keyword table does not produce it).
    Extern,
    /// Keyword `extend` (the lexer's keyword table does not produce it).
    Extend,
    /// Primitive type kind.
    PrimitiveType(PrimitiveType),
    /// Pointer-sized signed integer literal.
    Int(isize),
    /// 8-bit signed integer literal.
    Int8(i8),
    /// 16-bit signed integer literal.
    Int16(i16),
    /// 32-bit signed integer literal.
    Int32(i32),
    /// 64-bit signed integer literal.
    Int64(i64),
    /// Pointer-sized unsigned integer literal.
    Uint(usize),
    /// 8-bit unsigned integer literal.
    Uint8(u8),
    /// 16-bit unsigned integer literal.
    Uint16(u16),
    /// 32-bit unsigned integer literal.
    Uint32(u32),
    /// 64-bit unsigned integer literal.
    Uint64(u64),
    /// 32-bit float literal, as its decimal digits.
    Float32(String),
    /// 64-bit float literal, as its decimal digits.
    Float64(String),
    /// Bool literal.
    Bool(bool),
    /// String literal.
    String(String),
    /// Assignment operator `=`.
    Assign,
    /// Equality operator `==`.
    Equals,
    /// Non-equality operator `!=`.
    NotEquals,
    /// Less than operator `<`.
    Less,
    /// Greater than operator `>`.
    Greater,
    /// Less than or equal to operator `<=`.
    LessOrEquals,
    /// Greater than or equal to operator `>=`.
    GreaterOrEquals,
    /// Pipe operator `|`.
    Pipe,
    /// Colon operator `:`.
    Colon,
    /// Semicolon `;`.
    Semicolon,
    /// Field access or navigation dot `.`.
    Dot,
    /// Comma separator `,`.
    Comma,
    /// Pipeline / sprout operator `~>`.
    Sprout,
    /// Fat arrow operator `=>`.
    FatArrow,
    /// Right-inclusive range operator `..`.
    DoubleDot,
    /// Addition operator `+`.
    Add,
    /// Subtraction operator `-`.
    Subtract,
    /// Multiplication operator `*`.
    Multiply,
    /// Division operator `/`.
    Divide,
    /// Modulus operator `%`.
    Modulus,
    /// Exponentiation operator `**`.
    Power,
    /// Increment operator `++`.
    Increment,
    /// Decrement operator `--`.
    Decrement,
    /// Addition assignment operator `+=`.
    AddAndAssign,
    /// Subtraction assignment operator `-=`.
    SubAndAssign,
    /// Multiplication assignment operator `*=`.
    MulAndAssign,
    /// Division assignment operator `/=`.
    DivAndAssign,
    /// Modulus assignment operator `%=`.
    ModAndAssign,
    /// Opening parenthesis `(`.
    LeftParen,
    /// Closing parenthesis `)`.
    RightParen,
    /// Opening square bracket `[`.
    LeftBracket,
    /// Closing square bracket `]`.
    RightBracket,
    /// Opening curly brace `{`.
    LeftBrace,
    /// Closing curly brace `}`.
    RightBrace,
    /// Logical OR operator `||`.
    LogicOr,
    /// Logical AND operator `&&`.
    LogicAnd,
    /// Logical NOT operator `!`.
    LogicNot,
    /// Bitwise AND operator `&`.
    BitAnd,
    /// Bitwise OR operator `#`.
    BitOr,
    /// Bitwise NOT operator `~`.
    BitNot,
    /// Bitwise XOR operator `^`.
    BitXOR,
    /// Bitwise left shift operator `<<`.
    LeftShift,
    /// Bitwise right shift operator `>>`.
    RightShift,
    /// Keyword `import`.
    Import,
    /// Keyword `package`.
    Package,
    /// Newline separator.
    Newline,
    /// End of file marker.
    Eof,
    /// Unrecognized or illegal token.
    Illegal,
}

/// Primitive scalar and built-in types supported by Violette.
#[derive(Debug, Clone, Copy, PartialEq, Eq, Structural)]
pub enum PrimitiveType {
    /// Pointer-sized signed integer.
    Int,
    /// 8-bit signed integer.
    Int8,
    /// 16-bit signed integer.
    Int16,
    /// 32-bit signed integer.
    Int32,
    /// 64-bit signed integer.
    Int64,
    /// Pointer-sized unsigned integer.
    Uint,
    /// 8-bit unsigned integer.
    Uint8,
    /// 16-bit unsigned integer.
    Uint16,
    /// 32-bit unsigned integer.
    Uint32,
    /// 64-bit unsigned integer.
    Uint64,
    /// 32-bit floating-point number.
    Float32,
    /// 64-bit floating-point number.
    Float64,
    /// Boolean true/false value.
    Bool,
    /// Built-in string type.
    String,
}

/// The mathematical content of a [`Token`]: the same token, with the text
/// it carries (identifier, string or float digits) as a sequence of chars.
pub enum TokenView {
    Identifier(Seq<char>),
    Str(Seq<char>),
    Float32(Seq<char>),
    Float64(Seq<char>),
    /// Any token that carries no text.
    Plain(Token),
}

impl Token {
    /// Whether the token carries text (identifier, string or float digits).
    pub open spec fn carries_text(self) -> bool {
        self is Identifier || self is String || self is Float32 || self is Float64
    }
}

impl View for Token {
    type V = TokenView;

    open spec fn view(&self) -> TokenView {
        match self {
            Token::Identifier(s) => TokenView::Identifier(s@),
            Token::String(s) => TokenView::Str(s@),
            Token::Float32(s) => TokenView::Float32(s@),
            Token::Float64(s) => TokenView::Float64(s@),
            _ => TokenView::Plain(*self),
        }
    }
}

/// How an operator or punctuation token is written in Violette source, as
/// the language documents each token; `None` for words, literals, line
/// breaks and the end of input.
pub open spec fn spelling(t: Token) -> Option<Seq<char>> {
    match t {
        Token::Assign => Some(seq!['=']),
        Token::Equals => Some(seq!['=', '=']),
        Token::NotEquals => Some(seq!['!', '=']),
        Token::Less => Some(seq!['<']),
        Token::Greater => Some(seq!['>']),
        Token::LessOrEquals => Some(seq!['<', '=']),
        Token::GreaterOrEquals => Some(seq!['>', '=']),
        Token::Pipe => Some(seq!['|']),
        Token::Colon => Some(seq![':']),
        Token::Semicolon => Some(seq![';']),
        Token::Dot => Some(seq!['.']),
        Token::Comma => Some(seq![',']),
        Token::Sprout => Some(seq!['~', '>']),
        Token::FatArrow => Some(seq!['=', '>']),
        Token::DoubleDot => Some(seq!['.', '.']),
        Token::Add => Some(seq!['+']),
        Token::Subtract => Some(seq!['-']),
        Token::Multiply => Some(seq!['*']),
        Token::Divide => Some(seq!['/']),
        Token::Modulus => Some(seq!['%']),
        Token::Power => Some(seq!['*', '*']),
        Token::Increment => Some(seq!['+', '+']),
        Token::Decrement => Some(seq!['-', '-']),
        Token::AddAndAssign => Some(seq!['+', '=']),
        Token::SubAndAssign => Some(seq!['-', '=']),
        Token::MulAndAssign => Some(seq!['*', '=']),
        Token::DivAndAssign => Some(seq!['/', '=']),
        Token::ModAndAssign => Some(seq!['%', '=']),
        Token::LeftParen => Some(seq!['(']),
        Token::RightParen => Some(seq![')']),
        Token::LeftBracket => Some(seq!['[']),
        Token::RightBracket => Some(seq![']']),
        Token::LeftBrace => Some(seq!['{']),
        Token::RightBrace => Some(seq!['}']),
        Token::LogicOr => Some(seq!['|', '|']),
        Token::LogicAnd => Some(seq!['&', '&']),
        Token::LogicNot => Some(seq!['!']),
        Token::BitAnd => Some(seq!['&']),
        Token::BitOr => Some(seq!['#']),
        Token::BitNot => Some(seq!['~']),
        Token::BitXOR => Some(seq!['^']),
        Token::LeftShift => Some(seq!['<', '<']),
        Token::RightShift => Some(seq!['>', '>']),
        _ => None,
    }
}

/// The token spelled `w`, read back from its spelling.
pub open spec fn token_spelled(w: Seq<char>) -> Option<Token> {
    if w.len() == 1 {
        let c = w[0];
        if c == '=' { Some(Token::Assign) }
        else if c == '<' { Some(Token::Less) }
        else if c == '>' { Some(Token::Greater) }
        else if c == '|' { Some(Token::Pipe) }
        else if c == ':' { Some(Token::Colon) }
        else if c == ';' { Some(Token::Semicolon) }
        else if c == '.' { Some(Token::Dot) }
        else if c == ',' { Some(Token::Comma) }
        else if c == '+' { Some(Token::Add) }
        else if c == '-' { Some(Token::Subtract) }
        else if c == '*' { Some(Token::Multiply) }
        else if c == '/' { Some(Token::Divide) }
        else if c == '%' { Some(Token::Modulus) }
        else if c == '(' { Some(Token::LeftParen) }
        else if c == ')' { Some(Token::RightParen) }
        else if c == '[' { Some(Token::LeftBracket) }
        else if c == ']' { Some(Token::RightBracket) }
        else if c == '{' { Some(Token::LeftBrace) }
        else if c == '}' { Some(Token::RightBrace) }
        else if c == '!' { Some(Token::LogicNot) }
        else if c == '&' { Some(Token::BitAnd) }
        else if c == '#' { Some(Token::BitOr) }
        else if c == '~' { Some(Token::BitNot) }
        else if c == '^' { Some(Token::BitXOR) }
        else { None }
    } else if w.len() == 2 {
        let (a, b) = (w[0], w[1]);
        if a == '=' && b == '=' { Some(Token::Equals) }
        else if a == '!' && b == '=' { Some(Token::NotEquals) }
        else if a == '<' && b == '=' { Some(Token::LessOrEquals) }
        else if a == '>' && b == '=' { Some(Token::GreaterOrEquals) }
        else if a == '~' && b == '>' { Some(Token::Sprout) }
        else if a == '=' && b == '>' { Some(Token::FatArrow) }
        else if a == '.' && b == '.' { Some(Token::DoubleDot) }
        else if a == '*' && b == '*' { Some(Token::Power) }
        else if a == '+' && b == '+' { Some(Token::Increment) }
        else if a == '-' && b == '-' { Some(Token::Decrement) }
        else if a == '+' && b == '=' { Some(Token::AddAndAssign) }
        else if a == '-' && b == '=' { Some(Token::SubAndAssign) }
        else if a == '*' && b == '=' { Some(Token::MulAndAssign) }
        else if a == '/' && b == '=' { Some(Token::DivAndAssign) }
        else if a == '%' && b == '=' { Some(Token::ModAndAssign) }
        else if a == '|' && b == '|' { Some(Token::LogicOr) }
        else if a == '&' && b == '&' { Some(Token::LogicAnd) }
        else if a == '<' && b == '<' { Some(Token::LeftShift) }
        else if a == '>' && b == '>' { Some(Token::RightShift) }
        else { None }
    } else {
        None
    }
}

/// A spelled token is read back from its spelling.
pub proof fn lemma_spelling_read_back(t: Token)
    requires
        spelling(t) is Some,
    ensures
        token_spelled(spelling(t).unwrap()) == Some(t),
{
}

/// No two tokens are spelled alike.
pub proof fn lemma_spelling_distinct(t1: Token, t2: Token)
    requires
        spelling(t1) is Some,
        spelling(t1) == spelling(t2),
    ensures
        t1 == t2,
{
    lemma_spelling_read_back(t1);
    lemma_spelling_read_back(t2);
}

impl Token {
    /// A number that tells the variants apart: equal for two tokens exactly
    /// when they are the same variant, whatever they carry.
    pub open spec fn spec_kind(&self) -> u8 {
        match self {
            Token::Identifier(_) => 0,
            Token::Let => 1,
            Token::Var => 2,
            Token::Const => 3,
            Token::If => 4,
            Token::Else => 5,
            Token::For => 6,
            Token::In => 7,
            Token::Continue => 8,
            Token::Break => 9,
            Token::Match => 10,
            Token::Fun => 11,
            Token::Return => 12,
            Token::Bloom => 13,
            Token::Struct => 14,
            Token::Interface => 15,
            Token::Type => 16,
            Token::Open => 17,
            Token::Local => 18,
            Token::While => 19,
            Token::Extern => 20,
            Token::Extend => 21,
            Token::PrimitiveType(_) => 22,
            Token::Int(_) => 23,
            Token::Int8(_) => 24,
            Token::Int16(_) => 25,
            Token::Int32(_) => 26,
            Token::Int64(_) => 27,
            Token::Uint(_) => 28,
            Token::Uint8(_) => 29,
            Token::Uint16(_) => 30,
            Token::Uint32(_) => 31,
            Token::Uint64(_) => 32,
            Token::Float32(_) => 33,
            Token::Float64(_) => 34,
            Token::Bool(_) => 35,
            Token::String(_) => 36,
            Token::Assign => 37,
            Token::Equals => 38,
            Token::NotEquals => 39,
            Token::Less => 40,
            Token::Greater => 41,
            Token::LessOrEquals => 42,
            Token::GreaterOrEquals => 43,
            Token::Pipe => 44,
            Token::Colon => 45,
            Token::Semicolon => 46,
            Token::Dot => 47,
            Token::Comma => 48,
            Token::Sprout => 49,
            Token::FatArrow => 50,
            Token::DoubleDot => 51,
            Token::Add => 52,
            Token::Subtract => 53,
            Token::Multiply => 54,
            Token::Divide => 55,
            Token::Modulus => 56,
            Token::Power => 57,
            Token::Increment => 58,
            Token::Decrement => 59,
            Token::AddAndAssign => 60,
            Token::SubAndAssign => 61,
            Token::MulAndAssign => 62,
            Token::DivAndAssign => 63,
            Token::ModAndAssign => 64,
            Token::LeftParen => 65,
            Token::RightParen => 66,
            Token::LeftBracket => 67,
            Token::RightBracket => 68,
            Token::LeftBrace => 69,
            Token::RightBrace => 70,
            Token::LogicOr => 71,
            Token::LogicAnd => 72,
            Token::LogicNot => 73,
            Token::BitAnd => 74,
            Token::BitOr => 75,
            Token::BitNot => 76,
            Token::BitXOR => 77,
            Token::LeftShift => 78,
            Token::RightShift => 79,
            Token::Import => 80,
            Token::Package => 81,
            Token::Newline => 82,
            Token::Eof => 83,
            Token::Illegal => 84,
        }
    }

    /// Executable form of [`Token::spec_kind`].
    #[verifier::when_used_as_spec(spec_kind)]
    pub fn kind(&self) -> (k: u8)
        ensures
            k == self.spec_kind(),
    {
        match self {
            Token::Identifier(_) => 0,
            Token::Let => 1,
            Token::Var => 2,
            Token::Const => 3,
            Token::If => 4,
            Token::Else => 5,
            Token::For => 6,
            Token::In => 7,
            Token::Continue => 8,
            Token::Break => 9,
            Token::Match => 10,
            Token::Fun => 11,
            Token::Return => 12,
            Token::Bloom => 13,
            Token::Struct => 14,
            Token::Interface => 15,
            Token::Type => 16,
            Token::Open => 17,
            Token::Local => 18,
            Token::While => 19,
            Token::Extern => 20,
            Token::Extend => 21,
            Token::PrimitiveType(_) => 22,
            Token::Int(_) => 23,
            Token::Int8(_) => 24,
            Token::Int16(_) => 25,
            Token::Int32(_) => 26,
            Token::Int64(_) => 27,
            Token::Uint(_) => 28,
            Token::Uint8(_) => 29,
            Token::Uint16(_) => 30,
            Token::Uint32(_) => 31,
            Token::Uint64(_) => 32,
            Token::Float32(_) => 33,
            Token::Float64(_) => 34,
            Token::Bool(_) => 35,
            Token::String(_) => 36,
            Token::Assign => 37,
            Token::Equals => 38,
            Token::NotEquals => 39,
            Token::Less => 40,
            Token::Greater => 41,
            Token::LessOrEquals => 42,
            Token::GreaterOrEquals => 43,
            Token::Pipe => 44,
            Token::Colon => 45,
            Token::Semicolon => 46,
            Token::Dot => 47,
            Token::Comma => 48,
            Token::Sprout => 49,
            Token::FatArrow => 50,
            Token::DoubleDot => 51,
            Token::Add => 52,
            Token::Subtract => 53,
            Token::Multiply => 54,
            Token::Divide => 55,
            Token::Modulus => 56,
            Token::Power => 57,
            Token::Increment => 58,
            Token::Decrement => 59,
            Token::AddAndAssign => 60,
            Token::SubAndAssign => 61,
            Token::MulAndAssign => 62,
            Token::DivAndAssign => 63,
            Token::ModAndAssign => 64,
            Token::LeftParen => 65,
            Token::RightParen => 66,
            Token::LeftBracket => 67,
            Token::RightBracket => 68,
            Token::LeftBrace => 69,
            Token::RightBrace => 70,
            Token::LogicOr => 71,
            Token::LogicAnd => 72,
            Token::LogicNot => 73,
            Token::BitAnd => 74,
            Token::BitOr => 75,
            Token::BitNot => 76,
            Token::BitXOR => 77,
            Token::LeftShift => 78,
            Token::RightShift => 79,
            Token::Import => 80,
            Token::Package => 81,
            Token::Newline => 82,
            Token::Eof => 83,
            Token::Illegal => 84,
        }
    }
}

impl Token {
    /// A copy of the token.
    pub fn duplicate(&self) -> (r: Token)
        ensures
            r == *self,
    {
        match self {
            Token::Identifier(s) => Token::Identifier(s.clone()),
            Token::Float32(s) => Token::Float32(s.clone()),
            Token::Float64(s) => Token::Float64(s.clone()),
            Token::String(s) => Token::String(s.clone()),
            Token::Let => Token::Let,
            Token::Var => Token::Var,
            Token::Const => Token::Const,
            Token::If => Token::If,
            Token::Else => Token::Else,
            Token::For => Token::For,
            Token::In => Token::In,
            Token::Continue => Token::Continue,
            Token::Break => Token::Break,
            Token::Match => Token::Match,
            Token::Fun => Token::Fun,
            Token::Return => Token::Return,
            Token::Bloom => Token::Bloom,
            Token::Struct => Token::Struct,
            Token::Interface => Token::Interface,
            Token::Type => Token::Type,
            Token::Open => Token::Open,
            Token::Local => Token::Local,
            Token::While => Token::While,
            Token::Extern => Token::Extern,
            Token::Extend => Token::Extend,
            Token::PrimitiveType(p) => Token::PrimitiveType(*p),
            Token::Int(v) => Token::Int(*v),
            Token::Int8(v) => Token::Int8(*v),
            Token::Int16(v) => Token::Int16(*v),
            Token::Int32(v) => Token::Int32(*v),
            Token::Int64(v) => Token::Int64(*v),
            Token::Uint(v) => Token::Uint(*v),
            Token::Uint8(v) => Token::Uint8(*v),
            Token::Uint16(v) => Token::Uint16(*v),
            Token::Uint32(v) => Token::Uint32(*v),
            Token::Uint64(v) => Token::Uint64(*v),
            Token::Bool(b) => Token::Bool(*b),
            Token::Assign => Token::Assign,
            Token::Equals => Token::Equals,
            Token::NotEquals => Token::NotEquals,
            Token::Less => Token::Less,
            Token::Greater => Token::Greater,
            Token::LessOrEquals => Token::LessOrEquals,
            Token::GreaterOrEquals => Token::GreaterOrEquals,
            Token::Pipe => Token::Pipe,
            Token::Colon => Token::Colon,
            Token::Semicolon => Token::Semicolon,
            Token::Dot => Token::Dot,
            Token::Comma => Token::Comma,
            Token::Sprout => Token::Sprout,
            Token::FatArrow => Token::FatArrow,
            Token::DoubleDot => Token::DoubleDot,
            Token::Add => Token::Add,
            Token::Subtract => Token::Subtract,
            Token::Multiply => Token::Multiply,
            Token::Divide => Token::Divide,
            Token::Modulus => Token::Modulus,
            Token::Power => Token::Power,
            Token::Increment => Token::Increment,
            Token::Decrement => Token::Decrement,
            Token::AddAndAssign => Token::AddAndAssign,
            Token::SubAndAssign => Token::SubAndAssign,
            Token::MulAndAssign => Token::MulAndAssign,
            Token::DivAndAssign => Token::DivAndAssign,
            Token::ModAndAssign => Token::ModAndAssign,
            Token::LeftParen => Token::LeftParen,
            Token::RightParen => Token::RightParen,
            Token::LeftBracket => Token::LeftBracket,
            Token::RightBracket => Token::RightBracket,
            Token::LeftBrace => Token::LeftBrace,
            Token::RightBrace => Token::RightBrace,
            Token::LogicOr => Token::LogicOr,
            Token::LogicAnd => Token::LogicAnd,
            Token::LogicNot => Token::LogicNot,
            Token::BitAnd => Token::BitAnd,
            Token::BitOr => Token::BitOr,
            Token::BitNot => Token::BitNot,
            Token::BitXOR => Token::BitXOR,
            Token::LeftShift => Token::LeftShift,
            Token::RightShift => Token::RightShift,
            Token::Import => Token::Import,
            Token::Package => Token::Package,
            Token::Newline => Token::Newline,
            Token::Eof => Token::Eof,
            Token::Illegal => Token::Illegal,
        }
    }
}

} // verus!
