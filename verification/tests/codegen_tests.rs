use violette::codegen::codegen::{float_literal_text, Codegen};
use violette::codegen::error::CodegenError;
use violette::lexer::lexer::Lexer;
use violette::lexer::span::Span;
use violette::lexer::token::Token;
use violette::parser::expression::Expression;
use violette::parser::parser::Parser;
use violette::parser::statement::Statement;
use violette::typechecker::types::Ty;

fn compile(input: &str) -> String {
    let mut parser = Parser::new(Lexer::new(input));
    let ast = parser.parse_program("main").unwrap();
    let mut cg = Codegen::new();
    cg.emit_program(ast).unwrap()
}

#[test]
fn literals() {
    let mut cg = Codegen::new();
    let s = Span::origin();
    let e = Expression::IntLiteral { val: -42, span: s };
    assert_eq!(cg.emit_expression(&e).unwrap(), "-42");
    let e = Expression::BoolLiteral { val: true, span: s };
    assert_eq!(cg.emit_expression(&e).unwrap(), "true");
    let e = Expression::StringLiteral { val: "hé\n\"".to_string(), span: s };
    assert_eq!(cg.emit_expression(&e).unwrap(), "vio_str_from_literal(\"h\\u{e9}\\n\\\"\", 5)");
    let e = Expression::FloatLiteral { val: "005.500".to_string(), span: s };
    assert_eq!(cg.emit_expression(&e).unwrap(), "5.5");
    let e = Expression::FloatLiteral { val: "3.0".to_string(), span: s };
    assert_eq!(cg.emit_expression(&e).unwrap(), "3.0");
}

#[test]
fn float_texts() {
    assert_eq!(float_literal_text("42.5"), "42.5");
    assert_eq!(float_literal_text("0.10"), "0.1");
    assert_eq!(float_literal_text("000.000"), "0.0");
}

#[test]
fn unsupported_expressions() {
    let mut cg = Codegen::new();
    let e = Expression::Block { body: vec![], span: Span::origin() };
    assert_eq!(cg.emit_expression(&e), Err(CodegenError::Unsupported("this expression: Block { .. }".to_string())));
}

#[test]
fn operators_and_types() {
    let mut cg = Codegen::new();
    assert_eq!(cg.correlate_operator(&Token::AddAndAssign).unwrap(), "+=");
    assert_eq!(cg.correlate_operator(&Token::BitNot).unwrap(), "~");
    assert!(matches!(cg.correlate_operator(&Token::Dot), Err(CodegenError::Unexpected(_))));
    assert_eq!(cg.c_type(&Ty::String), "VioString");
    assert_eq!(cg.c_type(&Ty::Ref { inner: Box::new(Ty::Int), is_mut: false }), "int64_t*");
    let f = Ty::Fn { params: vec![Ty::Int], ret: Box::new(Ty::Bool) };
    assert_eq!(cg.c_type(&f), "vio_fn_type_0");
    assert_eq!(cg.c_type(&f), "vio_fn_type_0");
    assert_eq!(cg.typedefs, vec!["typedef bool (*vio_fn_type_0)(int64_t);".to_string()]);
}

#[test]
fn nested_function_types_are_named_inner_first() {
    let mut cg = Codegen::new();
    let inner = Ty::Fn { params: vec![], ret: Box::new(Ty::Int) };
    let outer = Ty::Fn { params: vec![inner, Ty::String], ret: Box::new(Ty::Unit) };
    assert_eq!(cg.c_type(&outer), "vio_fn_type_1");
    assert_eq!(
        cg.typedefs,
        vec![
            "typedef int64_t (*vio_fn_type_0)(void);".to_string(),
            "typedef void (*vio_fn_type_1)(vio_fn_type_0, VioString);".to_string(),
        ]
    );
    let again = Ty::Fn { params: vec![], ret: Box::new(Ty::Int) };
    assert_eq!(cg.c_type(&again), "vio_fn_type_0");
    assert_eq!(cg.typedefs.len(), 2);
}

#[test]
fn statements() {
    let mut cg = Codegen::new();
    assert_eq!(cg.emit_statement(&Statement::Break { span: Span::origin() }).unwrap(), "break;");
    assert_eq!(cg.emit_statement(&Statement::Continue { span: Span::origin() }).unwrap(), "continue;");
}

#[test]
fn block_lines_are_indented() {
    let mut parser = Parser::new(Lexer::new("if true {\n print(1)\n}\nlet s = \"a\""));
    let ast = parser.parse_program("main").unwrap();
    let mut cg = Codegen::new();
    let text = cg.emit_block(&ast.main).unwrap();
    for line in text.lines() {
        assert!(line.starts_with("    "), "{:?}", line);
    }
    assert!(text.ends_with("    vio_str_release(s);"));
}

#[test]
fn whole_program() {
    let out = compile("fun add(a: int, b: int) [int] {\n  return a + b\n}\nfun main() {\n  println(add(1, 2))\n}");
    assert!(out.starts_with("#include \"vio_runtime.h\"\n"));
    assert!(out.ends_with('\n'));
    assert!(out.contains("int64_t vio_user_add(int64_t a, int64_t b);"));
    assert!(out.contains("int64_t vio_user_add(int64_t a, int64_t b) {"));
    assert!(out.contains("vio_println_int(vio_user_add(1, 2));"));
    assert!(out.contains("int main(void) {"));
}

#[test]
fn top_level_code_gets_a_main() {
    let out = compile("let x = 1 + 2\nprint(x)");
    assert!(out.contains("int main(void) {\n    int64_t x = (1 + 2);\n    vio_print_int(x);\n}"), "{}", out);
}

#[test]
fn lambdas_are_lifted() {
    let out = compile("let f = fun(x: int) [int] {\n  return x * 2\n}");
    assert!(out.contains("static int64_t vio_lambda_0(int64_t x);"), "{}", out);
    assert!(out.contains("static int64_t vio_lambda_0(int64_t x) {"), "{}", out);
}

#[test]
fn empty_program_has_a_main() {
    let out = compile("");
    assert_eq!(out, "#include \"vio_runtime.h\"\n\n\n\nint main(void) {\n\t\n}\n");
}

#[test]
fn plain_expression_texts() {
    let mut parser = Parser::new(Lexer::new("let a = (1 + 2) * 3 ** 2\nlet b = \"x\" + \"y\"\nlet c = -a\nreturn a % 2 == 0"));
    let ast = parser.parse_program("main").unwrap();
    let mut cg = Codegen::new();
    let texts: Vec<String> = ast.main.iter().map(|st| cg.emit_statement(st).unwrap()).collect();
    assert_eq!(texts[0], "int64_t a = ((1 + 2) * pow(3, 2));");
    assert_eq!(texts[1], "VioString b = vio_str_concat(vio_str_from_literal(\"x\", 1), vio_str_from_literal(\"y\", 1));");
    assert_eq!(texts[2], "int64_t c = -a;");
    assert_eq!(texts[3], "return ((a % 2) == 0);");
}

#[test]
fn method_call_on_value() {
    let out = compile("fun twice(x: int) [int] {\n return x * 2\n}\nlet a = 5\nprint(a.twice())");
    assert!(out.contains("vio_print_int(vio_user_twice(a));"), "{}", out);
}

#[test]
fn method_call_on_struct_value_calls_the_function() {
    let out = compile(
        "struct Point {\n x: float64,\n y: float64,\n}\nfun distance(p: Point, other: Point) [float64] {\n return p.x - other.x\n}\nlet p1 = Point { x: 0.0, y: 0.0 }\nlet p2 = Point { x: 3.0, y: 4.0 }\nlet d = p1.distance(p2)",
    );
    assert!(out.contains("vio_user_distance(p1, p2)"), "{}", out);
}

#[test]
fn program_begins_with_structs_then_prototypes() {
    let out = compile("struct P {\n x: int\n}\nfun f(a: int) [int] {\n return a\n}\nfun main() {\n let v = f(1)\n}");
    let head = "#include \"vio_runtime.h\"\n\ntypedef struct {\n\tint64_t x;\n} P;\nint64_t vio_user_f(int64_t a);\n\n\n";
    assert!(out.starts_with(head), "{}", out);
    assert!(out.contains("int main(void) {"), "{}", out);
}

#[test]
fn whole_program_of_plain_statements() {
    let out = compile("let x = 1 + 2\nlet s = \"hi\"\nx");
    assert_eq!(
        out,
        "#include \"vio_runtime.h\"\n\n\n\nint main(void) {\n    int64_t x = (1 + 2);\n    VioString s = vio_str_from_literal(\"hi\", 2);\n    x;\n    vio_str_release(s);\n}\n"
    );
    assert_eq!(compile(""), "#include \"vio_runtime.h\"\n\n\n\nint main(void) {\n\t\n}\n");
}

#[test]
fn if_statement_text() {
    let mut parser = Parser::new(Lexer::new(
        "let a = 1\nif a < 2 {\n a\n} else if a > 5 {\n let b = 2\n} else {\n a\n}",
    ));
    let ast = parser.parse_program("main").unwrap();
    let mut cg = Codegen::new();
    assert_eq!(cg.emit_statement(&ast.main[0]).unwrap(), "int64_t a = 1;");
    assert_eq!(
        cg.emit_statement(&ast.main[1]).unwrap(),
        "if ((a < 2)) {\n    a;\n}\nelse if ((a > 5)) {\n    int64_t b = 2;\n}\nelse {\n    a;\n}\n"
    );
}

#[test]
fn loop_texts() {
    let mut parser = Parser::new(Lexer::new(
        "var n = 0\nif n < 3 {\n print(n)\n}\nfor i = 0; i < 3; i++ {\n print(i)\n}\nfor k in 0..3 {\n print(k)\n}",
    ));
    let mut ast = parser.parse_program("main").unwrap();
    let mut cg = Codegen::new();
    assert_eq!(cg.emit_statement(&ast.main[0]).unwrap(), "int64_t n = 0;");
    let while_loop = match ast.main.remove(1) {
        Statement::If(i) => Statement::While { condition: i.condition, body: i.then_block, span: i.span },
        other => panic!("{:?}", other),
    };
    assert_eq!(cg.emit_statement(&while_loop).unwrap(), "while ((n < 3)) {\n    vio_print_int(n);\n}");
    assert_eq!(
        cg.emit_statement(&ast.main[1]).unwrap(),
        "for (int64_t i = 0; (i < 3); i++) {\n    vio_print_int(i);\n}"
    );
    assert_eq!(cg.emit_statement(&ast.main[2]).unwrap(), "for (int64_t k = 0; k <= 3; k++) {\n    vio_print_int(k);\n}");
}

#[test]
fn struct_and_extern_texts() {
    let mut parser = Parser::new(Lexer::new("struct Person {\n    name: string,\n    age: int,\n    done: bool\n}"));
    let ast = parser.parse_program("main").unwrap();
    let mut cg = Codegen::new();
    let decl = ast.declarations.iter().chain(ast.main.iter()).next().unwrap();
    assert_eq!(
        cg.emit_statement(decl).unwrap(),
        "typedef struct {\n\tVioString name;\n\tint64_t age;\n\tbool done;\n} Person;"
    );
    let param = |n: &str, p: violette::lexer::token::PrimitiveType| violette::parser::statement::FuncParam {
        name: n.to_string(),
        param_type: violette::parser::types::Type::Primitive(p),
        span: Span::origin(),
        kind: violette::typechecker::error::BindingKind::Var,
        is_ref: false,
    };
    let ext = Statement::ExternFunc {
        name: "puts2".to_string(),
        params: vec![
            param("a", violette::lexer::token::PrimitiveType::Int),
            param("b", violette::lexer::token::PrimitiveType::Bool),
        ],
        return_type: Some(violette::parser::types::Type::Primitive(violette::lexer::token::PrimitiveType::Int)),
        span: Span::origin(),
    };
    assert_eq!(cg.emit_statement(&ext).unwrap(), "extern int64_t puts2(int64_t a, bool b);");
}

#[test]
fn function_definition_text() {
    let mut parser = Parser::new(Lexer::new("fun add(a: int, b: int) [int] {\n  return a + b\n}"));
    let ast = parser.parse_program("main").unwrap();
    let mut cg = Codegen::new();
    let decl = ast.declarations.iter().chain(ast.main.iter()).next().unwrap();
    assert_eq!(
        cg.emit_statement(decl).unwrap(),
        "int64_t vio_user_add(int64_t a, int64_t b) {\n    return (a + b);\n}\n"
    );
}

#[test]
fn extend_block_text() {
    let mut parser = Parser::new(Lexer::new("struct P {\n    x: int\n}\nfun get(p: P) [int] {\n    return 1\n}"));
    let mut ast = parser.parse_program("main").unwrap();
    let get = ast.declarations.remove(1);
    let ext = Statement::Extend {
        target: violette::parser::types::Type::Named(violette::parser::types::TypePath { segments: vec!["P".to_string()] }),
        methods: vec![get],
        span: Span::origin(),
    };
    let mut cg = Codegen::new();
    assert_eq!(cg.emit_statement(&ext).unwrap(), "int64_t vio_user_P_get(P p) {\n    return 1;\n}\n");
}
