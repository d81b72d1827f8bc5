use vstd::prelude::*;

use crate::lexer::token::{PrimitiveType, Token};
use crate::text::{debug_quoted, int_text, str_debug, string_from, string_push_str};

verus! {

/// The name of a primitive type's variant, as `{:?}` writes it.
pub open spec fn primitive_debug_text(p: PrimitiveType) -> Seq<char> {
    match p {
        PrimitiveType::Int => "Int"@,
        PrimitiveType::Int8 => "Int8"@,
        PrimitiveType::Int16 => "Int16"@,
        PrimitiveType::Int32 => "Int32"@,
        PrimitiveType::Int64 => "Int64"@,
        PrimitiveType::Uint => "Uint"@,
        PrimitiveType::Uint8 => "Uint8"@,
        PrimitiveType::Uint16 => "Uint16"@,
        PrimitiveType::Uint32 => "Uint32"@,
        PrimitiveType::Uint64 => "Uint64"@,
        PrimitiveType::Float32 => "Float32"@,
        PrimitiveType::Float64 => "Float64"@,
        PrimitiveType::Bool => "Bool"@,
        PrimitiveType::String => "String"@,
    }
}

/// The name of a token variant that carries nothing, as `{:?}` writes it.
pub open spec fn unit_token_text(t: Token) -> Seq<char> {
    match t {
        Token::Let => "Let"@,
        Token::Var => "Var"@,
        Token::Const => "Const"@,
        Token::If => "If"@,
        Token::Else => "Else"@,
        Token::For => "For"@,
        Token::In => "In"@,
        Token::Continue => "Continue"@,
        Token::Break => "Break"@,
        Token::Match => "Match"@,
        Token::Fun => "Fun"@,
        Token::Return => "Return"@,
        Token::Bloom => "Bloom"@,
        Token::Struct => "Struct"@,
        Token::Interface => "Interface"@,
        Token::Type => "Type"@,
        Token::Open => "Open"@,
        Token::Local => "Local"@,
        Token::While => "While"@,
        Token::Extern => "Extern"@,
        Token::Extend => "Extend"@,
        Token::Assign => "Assign"@,
        Token::Equals => "Equals"@,
        Token::NotEquals => "NotEquals"@,
        Token::Less => "Less"@,
        Token::Greater => "Greater"@,
        Token::LessOrEquals => "LessOrEquals"@,
        Token::GreaterOrEquals => "GreaterOrEquals"@,
        Token::Pipe => "Pipe"@,
        Token::Colon => "Colon"@,
        Token::Semicolon => "Semicolon"@,
        Token::Dot => "Dot"@,
        Token::Comma => "Comma"@,
        Token::Sprout => "Sprout"@,
        Token::FatArrow => "FatArrow"@,
        Token::DoubleDot => "DoubleDot"@,
        Token::Add => "Add"@,
        Token::Subtract => "Subtract"@,
        Token::Multiply => "Multiply"@,
        Token::Divide => "Divide"@,
        Token::Modulus => "Modulus"@,
        Token::Power => "Power"@,
        Token::Increment => "Increment"@,
        Token::Decrement => "Decrement"@,
        Token::AddAndAssign => "AddAndAssign"@,
        Token::SubAndAssign => "SubAndAssign"@,
        Token::MulAndAssign => "MulAndAssign"@,
        Token::DivAndAssign => "DivAndAssign"@,
        Token::ModAndAssign => "ModAndAssign"@,
        Token::LeftParen => "LeftParen"@,
        Token::RightParen => "RightParen"@,
        Token::LeftBracket => "LeftBracket"@,
        Token::RightBracket => "RightBracket"@,
        Token::LeftBrace => "LeftBrace"@,
        Token::RightBrace => "RightBrace"@,
        Token::LogicOr => "LogicOr"@,
        Token::LogicAnd => "LogicAnd"@,
        Token::LogicNot => "LogicNot"@,
        Token::BitAnd => "BitAnd"@,
        Token::BitOr => "BitOr"@,
        Token::BitNot => "BitNot"@,
        Token::BitXOR => "BitXOR"@,
        Token::LeftShift => "LeftShift"@,
        Token::RightShift => "RightShift"@,
        Token::Import => "Import"@,
        Token::Package => "Package"@,
        Token::Newline => "Newline"@,
        Token::Eof => "Eof"@,
        Token::Illegal => "Illegal"@,
        _ => Seq::empty(),
    }
}

/// The text that `{:?}` writes for a token. A float literal shows the
/// digits it was written with.
pub open spec fn token_debug_text(t: Token) -> Seq<char> {
    match t {
        Token::Identifier(s) => "Identifier"@ + "("@ + debug_quoted(s@) + ")"@,
        Token::PrimitiveType(p) => "PrimitiveType"@ + "("@ + primitive_debug_text(p) + ")"@,
        Token::Int(v) => "Int"@ + "("@ + int_text(v as int) + ")"@,
        Token::Int8(v) => "Int8"@ + "("@ + int_text(v as int) + ")"@,
        Token::Int16(v) => "Int16"@ + "("@ + int_text(v as int) + ")"@,
        Token::Int32(v) => "Int32"@ + "("@ + int_text(v as int) + ")"@,
        Token::Int64(v) => "Int64"@ + "("@ + int_text(v as int) + ")"@,
        Token::Uint(v) => "Uint"@ + "("@ + int_text(v as int) + ")"@,
        Token::Uint8(v) => "Uint8"@ + "("@ + int_text(v as int) + ")"@,
        Token::Uint16(v) => "Uint16"@ + "("@ + int_text(v as int) + ")"@,
        Token::Uint32(v) => "Uint32"@ + "("@ + int_text(v as int) + ")"@,
        Token::Uint64(v) => "Uint64"@ + "("@ + int_text(v as int) + ")"@,
        Token::Float32(s) => "Float32"@ + "("@ + s@ + ")"@,
        Token::Float64(s) => "Float64"@ + "("@ + s@ + ")"@,
        Token::Bool(b) => "Bool"@ + "("@ + (if b {
            "true"@
        } else {
            "false"@
        }) + ")"@,
        Token::String(s) => "String"@ + "("@ + debug_quoted(s@) + ")"@,
        _ => unit_token_text(t),
    }
}

fn primitive_debug(p: PrimitiveType) -> (r: &'static str)
    ensures
        r@ == primitive_debug_text(p),
{
    proof {
        reveal_strlit("Int");
        reveal_strlit("Int8");
        reveal_strlit("Int16");
        reveal_strlit("Int32");
        reveal_strlit("Int64");
        reveal_strlit("Uint");
        reveal_strlit("Uint8");
        reveal_strlit("Uint16");
        reveal_strlit("Uint32");
        reveal_strlit("Uint64");
        reveal_strlit("Float32");
        reveal_strlit("Float64");
        reveal_strlit("Bool");
        reveal_strlit("String");
    }
    match p {
        PrimitiveType::Int => "Int",
        PrimitiveType::Int8 => "Int8",
        PrimitiveType::Int16 => "Int16",
        PrimitiveType::Int32 => "Int32",
        PrimitiveType::Int64 => "Int64",
        PrimitiveType::Uint => "Uint",
        PrimitiveType::Uint8 => "Uint8",
        PrimitiveType::Uint16 => "Uint16",
        PrimitiveType::Uint32 => "Uint32",
        PrimitiveType::Uint64 => "Uint64",
        PrimitiveType::Float32 => "Float32",
        PrimitiveType::Float64 => "Float64",
        PrimitiveType::Bool => "Bool",
        PrimitiveType::String => "String",
    }
}

fn unit_token_debug(t: &Token) -> (r: &'static str)
    ensures
        r@ == unit_token_text(*t),
{
    proof {
        reveal_strlit("Let");
        reveal_strlit("Var");
        reveal_strlit("Const");
        reveal_strlit("If");
        reveal_strlit("Else");
        reveal_strlit("For");
        reveal_strlit("In");
        reveal_strlit("Continue");
        reveal_strlit("Break");
        reveal_strlit("Match");
        reveal_strlit("Fun");
        reveal_strlit("Return");
        reveal_strlit("Bloom");
        reveal_strlit("Struct");
        reveal_strlit("Interface");
        reveal_strlit("Type");
        reveal_strlit("Open");
        reveal_strlit("Local");
        reveal_strlit("While");
        reveal_strlit("Extern");
        reveal_strlit("Extend");
        reveal_strlit("Assign");
        reveal_strlit("Equals");
        reveal_strlit("NotEquals");
        reveal_strlit("Less");
        reveal_strlit("Greater");
        reveal_strlit("LessOrEquals");
        reveal_strlit("GreaterOrEquals");
        reveal_strlit("Pipe");
        reveal_strlit("Colon");
        reveal_strlit("Semicolon");
        reveal_strlit("Dot");
        reveal_strlit("Comma");
        reveal_strlit("Sprout");
        reveal_strlit("FatArrow");
        reveal_strlit("DoubleDot");
        reveal_strlit("Add");
        reveal_strlit("Subtract");
        reveal_strlit("Multiply");
        reveal_strlit("Divide");
        reveal_strlit("Modulus");
        reveal_strlit("Power");
        reveal_strlit("Increment");
        reveal_strlit("Decrement");
        reveal_strlit("AddAndAssign");
        reveal_strlit("SubAndAssign");
        reveal_strlit("MulAndAssign");
        reveal_strlit("DivAndAssign");
        reveal_strlit("ModAndAssign");
        reveal_strlit("LeftParen");
        reveal_strlit("RightParen");
        reveal_strlit("LeftBracket");
        reveal_strlit("RightBracket");
        reveal_strlit("LeftBrace");
        reveal_strlit("RightBrace");
        reveal_strlit("LogicOr");
        reveal_strlit("LogicAnd");
        reveal_strlit("LogicNot");
        reveal_strlit("BitAnd");
        reveal_strlit("BitOr");
        reveal_strlit("BitNot");
        reveal_strlit("BitXOR");
        reveal_strlit("LeftShift");
        reveal_strlit("RightShift");
        reveal_strlit("Import");
        reveal_strlit("Package");
        reveal_strlit("Newline");
        reveal_strlit("Eof");
        reveal_strlit("Illegal");
        reveal_strlit("");
    }
    match t {
        Token::Let => "Let",
        Token::Var => "Var",
        Token::Const => "Const",
        Token::If => "If",
        Token::Else => "Else",
        Token::For => "For",
        Token::In => "In",
        Token::Continue => "Continue",
        Token::Break => "Break",
        Token::Match => "Match",
        Token::Fun => "Fun",
        Token::Return => "Return",
        Token::Bloom => "Bloom",
        Token::Struct => "Struct",
        Token::Interface => "Interface",
        Token::Type => "Type",
        Token::Open => "Open",
        Token::Local => "Local",
        Token::While => "While",
        Token::Extern => "Extern",
        Token::Extend => "Extend",
        Token::Assign => "Assign",
        Token::Equals => "Equals",
        Token::NotEquals => "NotEquals",
        Token::Less => "Less",
        Token::Greater => "Greater",
        Token::LessOrEquals => "LessOrEquals",
        Token::GreaterOrEquals => "GreaterOrEquals",
        Token::Pipe => "Pipe",
        Token::Colon => "Colon",
        Token::Semicolon => "Semicolon",
        Token::Dot => "Dot",
        Token::Comma => "Comma",
        Token::Sprout => "Sprout",
        Token::FatArrow => "FatArrow",
        Token::DoubleDot => "DoubleDot",
        Token::Add => "Add",
        Token::Subtract => "Subtract",
        Token::Multiply => "Multiply",
        Token::Divide => "Divide",
        Token::Modulus => "Modulus",
        Token::Power => "Power",
        Token::Increment => "Increment",
        Token::Decrement => "Decrement",
        Token::AddAndAssign => "AddAndAssign",
        Token::SubAndAssign => "SubAndAssign",
        Token::MulAndAssign => "MulAndAssign",
        Token::DivAndAssign => "DivAndAssign",
        Token::ModAndAssign => "ModAndAssign",
        Token::LeftParen => "LeftParen",
        Token::RightParen => "RightParen",
        Token::LeftBracket => "LeftBracket",
        Token::RightBracket => "RightBracket",
        Token::LeftBrace => "LeftBrace",
        Token::RightBrace => "RightBrace",
        Token::LogicOr => "LogicOr",
        Token::LogicAnd => "LogicAnd",
        Token::LogicNot => "LogicNot",
        Token::BitAnd => "BitAnd",
        Token::BitOr => "BitOr",
        Token::BitNot => "BitNot",
        Token::BitXOR => "BitXOR",
        Token::LeftShift => "LeftShift",
        Token::RightShift => "RightShift",
        Token::Import => "Import",
        Token::Package => "Package",
        Token::Newline => "Newline",
        Token::Eof => "Eof",
        Token::Illegal => "Illegal",
        _ => "",
    }
}

/// `name(` + `inner` + `)`.
fn wrapped(name: &str, inner: &str) -> (r: String)
    ensures
        r@ == name@ + "("@ + inner@ + ")"@,
{
    proof {
        reveal_strlit("(");
        reveal_strlit(")");
    }
    let mut r = string_from(name);
    string_push_str(&mut r, "(");
    string_push_str(&mut r, inner);
    string_push_str(&mut r, ")");
    r
}

/// The text that `{:?}` writes for a token.
pub fn token_debug(t: &Token) -> (r: String)
    ensures
        r@ == token_debug_text(*t),
{
    proof {
        reveal_strlit("Identifier");
        reveal_strlit("PrimitiveType");
        reveal_strlit("Int");
        reveal_strlit("Int8");
        reveal_strlit("Int16");
        reveal_strlit("Int32");
        reveal_strlit("Int64");
        reveal_strlit("Uint");
        reveal_strlit("Uint8");
        reveal_strlit("Uint16");
        reveal_strlit("Uint32");
        reveal_strlit("Uint64");
        reveal_strlit("Float32");
        reveal_strlit("Float64");
        reveal_strlit("Bool");
        reveal_strlit("String");
        reveal_strlit("true");
        reveal_strlit("false");
    }
    match t {
        Token::Identifier(s) => {
            let q = str_debug(s.as_str());
            wrapped("Identifier", q.as_str())
        },
        Token::PrimitiveType(p) => wrapped("PrimitiveType", primitive_debug(*p)),
        Token::Int(v) => {
            let d = crate::text::i128_text(*v as i128);
            wrapped("Int", d.as_str())
        },
        Token::Int8(v) => {
            let d = crate::text::i128_text(*v as i128);
            wrapped("Int8", d.as_str())
        },
        Token::Int16(v) => {
            let d = crate::text::i128_text(*v as i128);
            wrapped("Int16", d.as_str())
        },
        Token::Int32(v) => {
            let d = crate::text::i128_text(*v as i128);
            wrapped("Int32", d.as_str())
        },
        Token::Int64(v) => {
            let d = crate::text::i128_text(*v as i128);
            wrapped("Int64", d.as_str())
        },
        Token::Uint(v) => {
            let d = crate::text::i128_text(*v as i128);
            wrapped("Uint", d.as_str())
        },
        Token::Uint8(v) => {
            let d = crate::text::i128_text(*v as i128);
            wrapped("Uint8", d.as_str())
        },
        Token::Uint16(v) => {
            let d = crate::text::i128_text(*v as i128);
            wrapped("Uint16", d.as_str())
        },
        Token::Uint32(v) => {
            let d = crate::text::i128_text(*v as i128);
            wrapped("Uint32", d.as_str())
        },
        Token::Uint64(v) => {
            let d = crate::text::i128_text(*v as i128);
            wrapped("Uint64", d.as_str())
        },
        Token::Float32(s) => wrapped("Float32", s.as_str()),
        Token::Float64(s) => wrapped("Float64", s.as_str()),
        Token::Bool(b) => {
            if *b {
                wrapped("Bool", "true")
            } else {
                wrapped("Bool", "false")
            }
        },
        Token::String(s) => {
            let q = str_debug(s.as_str());
            wrapped("String", q.as_str())
        },
        _ => string_from(unit_token_debug(t)),
    }
}

} // verus!
