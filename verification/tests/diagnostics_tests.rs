use violette::parser::error::ParseError;
use violette::diagnostics::diagnostics::Diagnostics;
use violette::diagnostics::labeling::{Label, LabelStyle};
use violette::diagnostics::token_text::token_debug;
use violette::diagnostics::typecheck_errors::render_report;
use violette::lexer::span::{Position, Span};
use violette::lexer::token::Token;
use violette::typechecker::checker::TypeError;
use violette::typechecker::error::BindingKind;
use violette::typechecker::types::Ty;

fn sp(line: usize, c1: usize, c2: usize) -> Span {
    Span::new(Position::new(line, c1), Position::new(line, c2))
}

fn plain(s: &str) -> String {
    let mut out = String::new();
    let mut chars = s.chars().peekable();
    while let Some(c) = chars.next() {
        if c == '\x1B' {
            for d in chars.by_ref() {
                if d == 'm' {
                    break;
                }
            }
        } else {
            out.push(c);
        }
    }
    out
}

#[test]
fn labels() {
    let p = Label::primary(sp(1, 2, 3), "m".to_string(), "f.vio".to_string());
    assert_eq!(p.style, LabelStyle::Primary);
    assert_eq!(p.message, "m");
    let s = Label::secondary(sp(1, 2, 3), "n".to_string(), "f.vio".to_string());
    assert_eq!(s.style, LabelStyle::Secondary);
    assert_eq!(s.file_path, "f.vio");
}

#[test]
fn mismatch_report() {
    let e = TypeError::Mismatch { expected: Ty::Int, found: Ty::String, span: sp(2, 5, 8) };
    let lines = vec!["let a = 1".to_string(), "let b: int = \"x\"".to_string()];
    let text = plain(&e.message("demo.vio", &lines));
    assert!(text.starts_with("error: found mismatched types\n  > demo.vio:2:5\n"), "{}", text);
    assert!(text.contains(" 2  \u{2502}  let b: int = \"x\"\n"), "{}", text);
    assert!(text.contains("     ~~~ there's a type mismatch, expected `int`, got `string`"), "{}", text);
}

#[test]
fn immutable_report_has_help() {
    let e = TypeError::AssignmentToImmutable {
        name: "x".to_string(),
        kind: BindingKind::Let,
        decl_span: sp(1, 1, 4),
        assign_span: sp(2, 1, 2),
    };
    let text = plain(&e.message("f.vio", &vec![]));
    assert!(text.starts_with("error: couldn't assign again to let-bound variable `x`\n"), "{}", text);
    assert!(text.contains("<source unavailable>"));
    assert!(text.contains("help: variable was declared with `let`, consider using `var` to make it mutable\n"));
    assert!(text.contains("___ first variable defined as let-bound here"));
}

#[test]
fn outside_loop_report_is_compact() {
    let e = TypeError::OutsideLoop { kind: violette::typechecker::error::LoopControlKind::Continue, span: sp(3, 0, 8) };
    let text = plain(&e.message("f.vio", &vec![]));
    assert!(text.starts_with("error: found `continue` outside of a loop\n"));
    assert!(!text.contains("\u{2502}\n"));
}

#[test]
fn operator_report_uses_debug_names() {
    let e = TypeError::InvalidBinaryOperator {
        operator: Token::NotEquals,
        left: Box::new(Ty::Bool),
        right: Box::new(Ty::Int),
        span: sp(1, 9, 18),
    };
    let text = plain(&e.message("m.vio", &vec![]));
    assert!(text.starts_with("error: operator `NotEquals` cannot be applied to types `bool` and `int`\n"), "{}", text);
}

#[test]
fn token_debug_texts() {
    assert_eq!(token_debug(&Token::Identifier("ab".to_string())), "Identifier(\"ab\")");
    assert_eq!(token_debug(&Token::Int8(-3)), "Int8(-3)");
    assert_eq!(token_debug(&Token::Uint64(7)), "Uint64(7)");
    assert_eq!(token_debug(&Token::LeftShift), "LeftShift");
    assert_eq!(token_debug(&Token::LeftShift), format!("{:?}", Token::LeftShift));
}

#[test]
fn render_frame() {
    let labels = vec![Label::primary(sp(12, 2, 4), "here".to_string(), "x".to_string())];
    let text = plain(&render_report("x", sp(12, 2, 4), "boom", &labels, None, &vec![]));
    let rule = "\u{2500}".repeat(50);
    assert!(text.contains(&format!("    \u{256d}\u{2500}{rule}\n")), "{}", text);
    assert!(text.ends_with(&format!("    \u{2570}\u{2500}{rule}\n")), "{}", text);
}

#[test]
fn parse_error_messages() {
    let e = ParseError::UnexpectedToken { token: Token::RightBrace, span: sp(3, 7, 8) };
    assert_eq!(e.message(), "unexpected token: RightBrace at 3:7");
    let e = ParseError::UnexpectedEof { expected: "`}`", span: sp(9, 1, 1) };
    assert_eq!(e.message(), "unexpected end of file, expected `}` at the 9:1");
    let e = ParseError::TooDeep { span: sp(2, 4, 5) };
    assert_eq!(e.message(), "nesting too deep (limit 64) at 2:4 — check for unbalanced delimiters");
    let e = ParseError::InvalidForLoopSyntax { span: sp(1, 1, 4) };
    assert_eq!(
        e.message(),
        "not ready yet or idk, InvalidForLoopSyntax { span: Span { start: Position { line: 1, col: 1 }, end: Position { line: 1, col: 4 } } }"
    );
    let e = ParseError::ExpectedIdentifier { context: "after let", found: Token::Identifier("x".to_string()), span: sp(1, 5, 6) };
    assert_eq!(e.message(), format!("not ready yet or idk, {:?}", e));
    let e = ParseError::UnclosedDelimiter {
        open_token: Token::LeftParen,
        open_span: sp(1, 1, 2),
        expected_token: Token::RightParen,
        found_tok: Token::Eof,
        found_span: sp(2, 1, 1),
    };
    assert_eq!(e.message(), format!("not ready yet or idk, {:?}", e));
}

#[test]
fn duplicate_definition_report_whole_text() {
    let e = TypeError::DuplicateDefinition {
        name: "f".to_string(),
        first_span: sp(1, 5, 6),
        second_span: sp(3, 5, 6),
        def_kind: violette::typechecker::error::DefinitionKind::Fun,
    };
    let lines = vec!["func f() {}".to_string(), "".to_string(), "func f() {}".to_string()];
    let text = plain(&e.message("p.vio", &lines));
    let rule = "\u{2500}".repeat(60);
    let expected = format!(
        "error: couldn't re-define function `f`\n  > p.vio:3:5\n    \u{256d}\u{2500}{rule}\n    \u{2502}\n 1  \u{2502}  func f() {{}}\n    \u{2502}      _ first definition of function `f` is here\n    \u{2502}\n    \u{2502}\n 3  \u{2502}  func f() {{}}\n    \u{2502}      ~ second definition of function `f` is here\n    \u{2502}\n    \u{2570}\u{2500}{rule}\nhelp: try to change function name pls\n"
    );
    assert_eq!(text, expected);
}
