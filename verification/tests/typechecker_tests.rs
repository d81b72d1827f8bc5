use violette::lexer::lexer::Lexer;
use violette::lexer::span::{Position, Span};
use violette::lexer::token::Token;
use violette::parser::parser::Parser;
use violette::parser::statement::Statement;
use violette::parser::types::{Type, TypePath};
use violette::typechecker::checker::{Checker, TypeError};
use violette::typechecker::env::Env;
use violette::typechecker::error::{BindingKind, DefinitionKind, LoopControlKind};
use violette::typechecker::types::{ty_eq, Ty};

fn check(input: &str) -> Vec<TypeError> {
    let mut parser = Parser::new(Lexer::new(input));
    let ast = parser.parse_program("main").unwrap();
    let mut checker = Checker::new();
    checker.check_program(&ast);
    checker.errors
}

fn is_bad_op(e: &TypeError, op: Token, l: Ty, r: Ty) -> bool {
    match e {
        TypeError::InvalidBinaryOperator { operator, left, right, .. } => {
            *operator == op && ty_eq(left, &l) && ty_eq(right, &r)
        }
        _ => false,
    }
}

fn is_mismatch(e: &TypeError, expected_ty: Ty, found_ty: Ty) -> bool {
    match e {
        TypeError::Mismatch { expected, found, .. } => ty_eq(expected, &expected_ty) && ty_eq(found, &found_ty),
        _ => false,
    }
}

fn is_arity(e: &TypeError, n: &str, want: usize, got: usize) -> bool {
    match e {
        TypeError::ArityMismatch { name, expected, found, .. } => name == n && *expected == want && *found == got,
        _ => false,
    }
}

#[test]
fn main_tail() {
    let r1 = check("package main\n            let x = true != 5");
    assert_eq!(r1.len(), 1);
    assert!(is_bad_op(&r1[0], Token::NotEquals, Ty::Bool, Ty::Int));
    assert!(check("package main\n            let x = 5 != 5").is_empty());
    assert!(check("package main\n            let x = true == false").is_empty());
    let r4 = check("package main\n            let x = true != 5\n            let y = x + 1");
    assert_eq!(r4.len(), 1);
    assert!(is_bad_op(&r4[0], Token::NotEquals, Ty::Bool, Ty::Int));
}

#[test]
fn built_in_unions() {
    let r1 = check(
        "package double

            fun double(x: int) [int] {
                return x * 2
            }

            double(\"hi\")
            double(6, 7)",
    );
    assert_eq!(r1.len(), 2, "{:?}", r1);
    assert!(is_mismatch(&r1[0], Ty::Int, Ty::String));
    assert!(is_arity(&r1[1], "double", 1, 2));

    let r2 = check(
        "package double

            fun double(x: int) [string] {
                return x * 2
            }",
    );
    assert_eq!(r2.len(), 1, "{:?}", r2);
    assert!(is_mismatch(&r2[0], Ty::String, Ty::Int));

    let r3 = check(
        "package double

            print(true)
            print(\"x\")
            print()
            5(3)",
    );
    assert_eq!(r3.len(), 2, "{:?}", r3);
    assert!(is_arity(&r3[0], "print", 1, 0));
    assert!(matches!(r3[1], TypeError::NotCallable { .. }));
}

#[test]
fn reassigning_a_let_is_reported() {
    let errs = check("let x = 1\nx = 2");
    assert_eq!(errs.len(), 1, "{:?}", errs);
    assert!(matches!(errs[0], TypeError::AssignmentToImmutable { kind: BindingKind::Let, .. }));
    assert!(check("var x = 1\nx = 2").is_empty());
}

#[test]
fn break_outside_a_loop_is_reported() {
    let errs = check("break");
    assert_eq!(errs.len(), 1);
    assert!(matches!(errs[0], TypeError::OutsideLoop { kind: LoopControlKind::Break, .. }));
}

#[test]
fn missing_return_is_reported() {
    let errs = check("fun f(x: int) [int] {\n  if x > 1 {\n    return 1\n  }\n}");
    assert_eq!(errs.len(), 1, "{:?}", errs);
    assert!(matches!(errs[0], TypeError::MissingReturn { .. }));
    assert!(check("fun f(x: int) [int] {\n  if x > 1 {\n    return 1\n  } else {\n    return 2\n  }\n}").is_empty());
}

#[test]
fn duplicate_function_is_reported() {
    let errs = check("fun f() {}\nfun f() {}");
    assert!(errs.iter().any(|e| matches!(e, TypeError::DuplicateDefinition { def_kind: DefinitionKind::Fun, .. })));
}

#[test]
fn top_level_code_and_main_conflict() {
    let errs = check("fun main() {}\nprint(1)");
    assert!(errs.iter().any(|e| matches!(e, TypeError::ConflictingEntryPoint { .. })));
    assert!(!check("fun main() {\n print(1)\n}").iter().any(|e| matches!(e, TypeError::ConflictingEntryPoint { .. })));
}

#[test]
fn unknown_name_is_reported() {
    let errs = check("print(y)");
    assert_eq!(errs.len(), 1);
    assert!(matches!(&errs[0], TypeError::UnknownName { name, .. } if name == "y"));
}

#[test]
fn operator_typing() {
    let mut c = Checker::new();
    let s = Span::origin();
    assert!(ty_eq(&c.check_infix(&Token::Add, Ty::String, Ty::String, s, s), &Ty::String));
    assert!(ty_eq(&c.check_infix(&Token::Less, Ty::Float, Ty::Float, s, s), &Ty::Bool));
    assert!(ty_eq(&c.check_infix(&Token::Modulus, Ty::Int, Ty::Int, s, s), &Ty::Int));
    assert!(c.errors.is_empty());
    assert!(ty_eq(&c.check_infix(&Token::Modulus, Ty::Float, Ty::Float, s, s), &Ty::Error));
    assert_eq!(c.errors.len(), 1);
    assert!(ty_eq(&c.check_infix(&Token::Less, Ty::Int, Ty::String, s, s), &Ty::Bool));
    assert_eq!(c.errors.len(), 2);
    assert!(ty_eq(&c.check_infix(&Token::Add, Ty::Error, Ty::Int, s, s), &Ty::Error));
    assert_eq!(c.errors.len(), 2);
    assert!(ty_eq(&c.check_prefix(&Token::Subtract, Ty::Bool, s, s), &Ty::Error));
    assert_eq!(c.errors.len(), 3);
}

#[test]
fn env_lookup_after_define_and_shadowing() {
    let mut env = Env::new();
    let s = Span::new(Position::new(1, 1), Position::new(1, 2));
    env.push();
    assert!(env.define("x".to_string(), Ty::Int, BindingKind::Let, &s).is_ok());
    assert!(ty_eq(&env.lookup("x").unwrap().ty, &Ty::Int));
    assert!(env.define("x".to_string(), Ty::Bool, BindingKind::Let, &s).is_err());
    env.push();
    assert!(env.define("x".to_string(), Ty::String, BindingKind::Var, &s).is_ok());
    assert!(ty_eq(&env.lookup("x").unwrap().ty, &Ty::String));
    env.pop();
    assert!(ty_eq(&env.lookup("x").unwrap().ty, &Ty::Int));
    assert!(env.lookup("y").is_none());
}

#[test]
fn define_opens_a_scope_when_there_is_none() {
    let mut env = Env::new();
    let s = Span::origin();
    assert!(env.define("a".to_string(), Ty::Int, BindingKind::Var, &s).is_ok());
    assert_eq!(env.scopes.len(), 1);
}

#[test]
fn is_mutable_only_for_var() {
    assert!(BindingKind::Var.is_mutable());
    assert!(!BindingKind::Let.is_mutable());
    assert!(!BindingKind::Const.is_mutable());
    assert!(!BindingKind::Param.is_mutable());
}

#[test]
fn type_texts() {
    let f = Ty::Fn { params: vec![Ty::Int, Ty::String], ret: Box::new(Ty::Bool) };
    assert_eq!(f.text(), "func(int, string) [bool]");
    assert_eq!(Ty::Union(vec![Ty::Int, Ty::Float]).text(), "int | float");
    assert_eq!(Ty::Ref { inner: Box::new(Ty::Int), is_mut: true }.text(), "&var int");
    assert_eq!(Ty::Struct("Point".to_string()).debug(), "Struct(\"Point\")");
    assert_eq!(
        Ty::Generic { name: "Range".to_string(), param: Box::new(Ty::Int) }.debug(),
        "Generic { name: \"Range\", param: Int }"
    );
    assert_eq!(Ty::Generic { name: "Range".to_string(), param: Box::new(Ty::Int) }.text(), format!("{:?}", Ty::Generic { name: "Range".to_string(), param: Box::new(Ty::Int) }));
}

#[test]
fn struct_redeclaration_test() {
    let parse = |s: &str| Parser::new(Lexer::new(s)).parse_program("main").unwrap();
    let checker = Checker::new();
    let ok = parse("struct A {\n x: int\n}\nstruct A {}");
    assert!(checker.redeclarations_checked(&ok.declarations));
    let bad = parse("struct A {}\nstruct A {\n x: int\n}");
    assert!(!checker.redeclarations_checked(&bad.declarations));
    let single = parse("struct A {}\nstruct B {}");
    assert!(checker.redeclarations_checked(&single.declarations));
}

#[test]
fn method_call_on_primitive_value() {
    assert!(check("fun twice(x: int) [int] {\n return x * 2\n}\nlet a = 5\nlet b = a.twice()\nlet c = b + 1").is_empty());
    let r = check("fun twice(x: int) [int] {\n return x * 2\n}\nlet a = 5\nlet b = a.twice()\nlet c = b + true");
    assert_eq!(r.len(), 1);
}

const POINT_PROGRAM: &str = "struct Point {\n x: float64,\n y: float64,\n}\nfun distance(p: Point, other: Point) [float64] {\n let dx = p.x - other.x\n return dx\n}\nlet p1 = Point { x: 0.0, y: 0.0 }\nlet p2 = Point { x: 3.0, y: 4.0 }\n";

#[test]
fn method_call_on_struct_value() {
    assert!(check(&format!("{}let d = p1.distance(p2)\nlet e = d + 1.0", POINT_PROGRAM)).is_empty());
    assert!(check(&format!("{}let d = distance(p1, p2)\nlet e = d + 1.0", POINT_PROGRAM)).is_empty());
    let r = check(&format!("{}let d = p1.distance(p2)\nlet e = d + true", POINT_PROGRAM));
    assert_eq!(r.len(), 1);
    let r = check(&format!("{}let d = p1.distance()", POINT_PROGRAM));
    assert_eq!(r.len(), 1);
    assert!(is_arity(&r[0], "distance", 1, 0));
    let r = check(&format!("{}let d = p1.distance(5)", POINT_PROGRAM));
    assert_eq!(r.len(), 1);
    assert!(is_mismatch(&r[0], Ty::Struct("Point".to_string()), Ty::Int));
}

#[test]
fn let_binding_is_immutable() {
    let r = check("let x = 1\nx = 2");
    assert_eq!(r.len(), 1);
    assert!(matches!(&r[0], TypeError::AssignmentToImmutable { kind: BindingKind::Let, .. }));
    assert!(check("var y = 1\ny = 2").is_empty());
}

#[test]
fn call_of_unknown_names_reports_argument_then_callee() {
    let errs = check("f(y)");
    assert_eq!(errs.len(), 2);
    assert!(matches!(&errs[0], TypeError::UnknownName { name, .. } if name == "y"));
    assert!(matches!(&errs[1], TypeError::UnknownName { name, .. } if name == "f"));
}

#[test]
fn logic_operator_reports_each_operand() {
    let errs = check("let a = 1 && 2");
    assert_eq!(errs.len(), 2);
    assert!(is_mismatch(&errs[0], Ty::Bool, Ty::Int));
    assert!(is_mismatch(&errs[1], Ty::Bool, Ty::Int));
}

#[test]
fn unknown_method_on_a_value() {
    let errs = check("let n = 5\nlet s = n.foo()");
    assert_eq!(errs.len(), 1);
    assert!(matches!(&errs[0], TypeError::NoSuchMethod { method, ty: Ty::Int, .. } if method == "foo"));
}

#[test]
fn indexing_a_number_is_unsupported() {
    let errs = check("let n = 5\nlet c = n[0]");
    assert_eq!(errs.len(), 1);
    assert!(matches!(&errs[0], TypeError::Unsupported { desc, .. } if desc == "Type `Int` doesn't support indexing"));
}

#[test]
fn collected_signatures() {
    let src = "struct P {\n    x: int\n}\nfun get(p: P) [int] {\n    return p.x\n}\nfun f(a: int) [int] {\n    return a\n}\nfun f() {\n}";
    let mut parser = Parser::new(Lexer::new(src));
    let mut ast = parser.parse_program("main").unwrap();
    assert_eq!(ast.declarations.len(), 4);
    let get = ast.declarations.remove(1);
    let extend = Statement::Extend {
        target: Type::Named(TypePath { segments: vec!["P".to_string()] }),
        methods: vec![get],
        span: Span::origin(),
    };
    ast.declarations.insert(1, extend);
    let mut c = Checker::new();
    c.collect_signatures(&ast.declarations);
    let find = |n: &str| c.funcs.iter().find(|e| e.name == n).map(|e| e.value.params.len());
    assert_eq!(find("f"), Some(1));
    assert_eq!(find("P.get"), Some(1));
    assert_eq!(find("get"), None);
    assert_eq!(c.errors.len(), 1);
    assert!(matches!(&c.errors[0], TypeError::DuplicateDefinition { name, def_kind: DefinitionKind::Fun, .. } if name == "f"));
}

#[test]
fn redeclared_function_and_struct_keep_the_first() {
    let mut parser = Parser::new(Lexer::new("struct A {\n x: int\n}\nfun f() {}\nstruct A {\n y: int\n}\nfun f(a: int) {}"));
    let ast = parser.parse_program("main").unwrap();
    let mut c = Checker::new();
    c.collect_signatures(&ast.declarations);
    assert_eq!(c.errors.len(), 2);
    let first_field = match &ast.declarations[0] {
        Statement::Struct { fields, .. } => fields[0].span,
        _ => panic!("a struct comes first"),
    };
    match &c.errors[0] {
        TypeError::DuplicateDefinition { name, first_span, second_span, def_kind: DefinitionKind::Struct } => {
            assert_eq!(name, "A");
            assert_eq!(*first_span, first_field);
            assert_eq!(*second_span, ast.declarations[2].span());
        }
        e => panic!("unexpected {:?}", e),
    }
    match &c.errors[1] {
        TypeError::DuplicateDefinition { name, first_span, second_span, def_kind: DefinitionKind::Fun } => {
            assert_eq!(name, "f");
            assert_eq!(*first_span, ast.declarations[1].span());
            assert_eq!(*second_span, ast.declarations[3].span());
        }
        e => panic!("unexpected {:?}", e),
    }
    let f = c.funcs.iter().find(|e| e.name == "f").unwrap();
    assert_eq!(f.value.params.len(), 0);
    let a = c.structs.iter().find(|e| e.name == "A").unwrap();
    assert_eq!(a.value.fields[0].name, "x");
}

#[test]
fn declarations_report_in_order() {
    let mut parser = Parser::new(Lexer::new("const k = 1\nconst k = true\nfun m() {}"));
    let mut ast = parser.parse_program("main").unwrap();
    let m = ast.declarations.remove(2);
    ast.declarations.push(Statement::Extend {
        target: Type::Named(TypePath { segments: vec!["Q".to_string()] }),
        methods: vec![m],
        span: Span::origin(),
    });
    let mut c = Checker::new();
    c.define_builtins();
    c.collect_signatures(&ast.declarations);
    assert_eq!(c.errors.len(), 2, "{:?}", c.errors);
    assert!(matches!(&c.errors[0], TypeError::DuplicateDefinition { name, def_kind: DefinitionKind::Var, .. } if name == "k"));
    assert!(matches!(&c.errors[1], TypeError::UnknownName { name, .. } if name == "Q"));
}

#[test]
fn block_errors_come_in_order() {
    let mut parser = Parser::new(Lexer::new("let a = 1\nlet a = 2\nreturn true"));
    let ast = parser.parse_program("main").unwrap();
    let mut c = Checker::new();
    c.check_block(&ast.main);
    assert_eq!(c.errors.len(), 2);
    assert!(matches!(&c.errors[0], TypeError::DuplicateDefinition { name, .. } if name == "a"));
    assert!(is_mismatch(&c.errors[1], Ty::Unit, Ty::Bool));
}

#[test]
fn function_check_reports_parameters_and_missing_return() {
    let mut parser = Parser::new(Lexer::new("fun f(a: int, a: int) [int] {\n    let b = a\n}"));
    let ast = parser.parse_program("main").unwrap();
    let mut c = Checker::new();
    c.check_fn(&ast.declarations[0]);
    assert_eq!(c.errors.len(), 2);
    assert!(matches!(&c.errors[0], TypeError::DuplicateDefinition { name, .. } if name == "a"));
    assert!(matches!(&c.errors[1], TypeError::MissingReturn { name, .. } if name == "f"));
    assert!(ty_eq(&c.current_ret, &Ty::Int));
}

#[test]
fn field_assignment_reports() {
    let mut parser = Parser::new(Lexer::new("struct P {\n    x: int\n}"));
    let ast = parser.parse_program("main").unwrap();
    let mut c = Checker::new();
    c.collect_signatures(&ast.declarations);
    let s = Span::origin();
    c.defined("p".to_string(), Ty::Struct("P".to_string()), BindingKind::Let, s);
    let obj = violette::parser::expression::Expression::Identifier { name: "p".to_string(), span: s };
    let two = violette::parser::expression::Expression::IntLiteral { val: 2, span: s };
    c.check_field_assignment(&obj, "x", &two, s);
    assert_eq!(c.errors.len(), 1);
    assert!(matches!(&c.errors[0], TypeError::AssignmentToImmutable { name, .. } if name == "p.x"));
    c.check_field_assignment(&obj, "y", &two, s);
    assert_eq!(c.errors.len(), 3);
    assert!(matches!(&c.errors[2], TypeError::UnknownField { struct_name, field, .. } if struct_name == "P" && field == "y"));
}
