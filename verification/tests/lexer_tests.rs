use violette::lexer::lexer::Lexer;
use violette::lexer::token::{PrimitiveType, Token};

fn lex(input: &str) -> Vec<Token> {
    let mut lexer = Lexer::new(input);
    let mut res = Vec::new();
    loop {
        let spanned_token = lexer.next_token();
        res.push(spanned_token.token.clone());
        if spanned_token.token == Token::Eof {
            break;
        }
        assert_ne!(spanned_token.token, Token::Illegal);
    }
    res
}

fn assert_tokens(input: &str, expected: Vec<Token>) {
    let actual = lex(input);
    for (i, (a, e)) in actual.iter().zip(expected.iter()).enumerate() {
        assert_eq!(a, e, "Token #{i} mismatch : got {a:?}, expected {e:?}");
    }
    assert_eq!(actual.len(), expected.len(), "token count mismatch: got {}, expected {}", actual.len(), expected.len());
}

fn id(s: &str) -> Token {
    Token::Identifier(s.to_string())
}

#[test]
fn let_it_be() {
    let input = "let x = 42.5_f64
        let y = 100_u32
        let z = 3.14_f32
        ";
    assert_tokens(
        input,
        vec![
            Token::Let,
            id("x"),
            Token::Assign,
            Token::Float64("42.5".to_string()),
            Token::Newline,
            Token::Let,
            id("y"),
            Token::Assign,
            Token::Uint32(100),
            Token::Newline,
            Token::Let,
            id("z"),
            Token::Assign,
            Token::Float32("3.14".to_string()),
            Token::Newline,
            Token::Eof,
        ],
    )
}

#[test]
fn lexer_tests_fun_fetch_user() {
    let input = "fun fetchUser(id: int) [Win(User) | Fail(string)] {} // it's fetchUser function";
    assert_tokens(
        input,
        vec![
            Token::Fun,
            id("fetchUser"),
            Token::LeftParen,
            id("id"),
            Token::Colon,
            Token::PrimitiveType(PrimitiveType::Int),
            Token::RightParen,
            Token::LeftBracket,
            id("Win"),
            Token::LeftParen,
            id("User"),
            Token::RightParen,
            Token::Pipe,
            id("Fail"),
            Token::LeftParen,
            Token::PrimitiveType(PrimitiveType::String),
            Token::RightParen,
            Token::RightBracket,
            Token::LeftBrace,
            Token::RightBrace,
            Token::Eof,
        ],
    )
}

#[test]
fn bit_operations() {
    let input = "let a = 0b01101 # 0xAF & ~0o75
        if cond1 && cond2 || !cond3 {
            let res = 0x01
        } else {
            let res = 0x00
        }";
    assert_tokens(
        input,
        vec![
            Token::Let,
            id("a"),
            Token::Assign,
            Token::Int(13),
            Token::BitOr,
            Token::Int(175),
            Token::BitAnd,
            Token::BitNot,
            Token::Int(61),
            Token::Newline,
            Token::If,
            id("cond1"),
            Token::LogicAnd,
            id("cond2"),
            Token::LogicOr,
            Token::LogicNot,
            id("cond3"),
            Token::LeftBrace,
            Token::Newline,
            Token::Let,
            id("res"),
            Token::Assign,
            Token::Int(1),
            Token::Newline,
            Token::RightBrace,
            Token::Else,
            Token::LeftBrace,
            Token::Newline,
            Token::Let,
            id("res"),
            Token::Assign,
            Token::Int(0),
            Token::Newline,
            Token::RightBrace,
            Token::Eof,
        ],
    )
}

#[test]
fn mixer() {
    let input = "let a=5+10+0xFA0_3E2&~0o10";
    assert_tokens(
        input,
        vec![
            Token::Let,
            id("a"),
            Token::Assign,
            Token::Int(5),
            Token::Add,
            Token::Int(10),
            Token::Add,
            Token::Int(16384994),
            Token::BitAnd,
            Token::BitNot,
            Token::Int(8),
            Token::Eof,
        ],
    )
}

#[test]
fn string_literal_reading() {
    let input = "
        f(\"x\")";
    assert_eq!(
        lex(input),
        vec![
            Token::Newline,
            id("f"),
            Token::LeftParen,
            Token::String("x".to_string()),
            Token::RightParen,
            Token::Eof
        ]
    )
}

#[test]
fn final_test() {
    let input = "
        /*
        literally Violette Language test i swear
        /* comments nesting /* and one more */ looks like it's done */
        */

        let hexVal = 0x1A_2B
        let s = \"String with // commentaries /* mustn't */ break\"

        let broken_expr = 5/*yeah*/+/*numbers*/10

        let i = 42
        i++
        i--
        ";
    assert_tokens(
        input,
        vec![
            Token::Newline,
            Token::Newline,
            Token::Let,
            id("hexVal"),
            Token::Assign,
            Token::Int(6699),
            Token::Newline,
            Token::Let,
            id("s"),
            Token::Assign,
            Token::String("String with // commentaries /* mustn't */ break".to_string()),
            Token::Newline,
            Token::Let,
            id("broken_expr"),
            Token::Assign,
            Token::Int(5),
            Token::Add,
            Token::Int(10),
            Token::Newline,
            Token::Let,
            id("i"),
            Token::Assign,
            Token::Int(42),
            Token::Newline,
            id("i"),
            Token::Increment,
            Token::Newline,
            id("i"),
            Token::Decrement,
            Token::Newline,
            Token::Eof,
        ],
    )
}

#[test]
fn spans_follow_lines_and_columns() {
    let mut lexer = Lexer::new("let x\n  = 5");
    let t1 = lexer.next_token();
    assert_eq!(t1.token, Token::Let);
    assert_eq!((t1.span.start.line, t1.span.start.col), (1, 1));
    let t2 = lexer.next_token();
    assert_eq!(t2.token, id("x"));
    assert_eq!((t2.span.start.line, t2.span.start.col), (1, 5));
    let t3 = lexer.next_token();
    assert_eq!(t3.token, Token::Newline);
    let t4 = lexer.next_token();
    assert_eq!(t4.token, Token::Assign);
    assert_eq!((t4.span.start.line, t4.span.start.col), (2, 3));
}

#[test]
fn end_of_input_repeats() {
    let mut lexer = Lexer::new("x");
    assert_eq!(lexer.next_token().token, id("x"));
    assert_eq!(lexer.next_token().token, Token::Eof);
    assert_eq!(lexer.next_token().token, Token::Eof);
}

#[test]
fn suffix_out_of_range_is_illegal() {
    let mut lexer = Lexer::new("300_u8");
    assert_eq!(lexer.next_token().token, Token::Illegal);
}
