use violette::parser::validate::program_shape;
use violette::lexer::lexer::Lexer;
use violette::lexer::span::Span;
use violette::lexer::token::{PrimitiveType, Token};
use violette::parser::expression::{Expression, StructLiteralField};
use violette::parser::parser::Parser;
use violette::parser::statement::{ElseIf, FuncParam, IfStatement, MatchArm, Statement};
use violette::parser::types::{Precedence, Type, TypePath};
use violette::typechecker::error::BindingKind;

fn o() -> Span {
    Span::origin()
}

fn erase_param(p: FuncParam) -> FuncParam {
    FuncParam { name: p.name, param_type: p.param_type, span: o(), kind: p.kind, is_ref: p.is_ref }
}

fn erase_block(b: Vec<Statement>) -> Vec<Statement> {
    b.into_iter().map(erase_stmt).collect()
}

fn erase_box(e: Box<Expression>) -> Box<Expression> {
    Box::new(erase(*e))
}

/// The tree with every place set to the origin.
fn erase(e: Expression) -> Expression {
    match e {
        Expression::Identifier { name, .. } => Expression::Identifier { name, span: o() },
        Expression::IntLiteral { val, .. } => Expression::IntLiteral { val, span: o() },
        Expression::FloatLiteral { val, .. } => Expression::FloatLiteral { val, span: o() },
        Expression::BoolLiteral { val, .. } => Expression::BoolLiteral { val, span: o() },
        Expression::StringLiteral { val, .. } => Expression::StringLiteral { val, span: o() },
        Expression::StructLiteral { name, fields, .. } => Expression::StructLiteral {
            name,
            fields: fields
                .into_iter()
                .map(|f| StructLiteralField { field_name: f.field_name, field_val: erase_box(f.field_val) })
                .collect(),
            span: o(),
        },
        Expression::Prefix { operator, right, .. } => Expression::Prefix { operator, right: erase_box(right), span: o() },
        Expression::Infix { left, operator, right, .. } => {
            Expression::Infix { left: erase_box(left), operator, right: erase_box(right), span: o() }
        }
        Expression::Postfix { left, operator, .. } => Expression::Postfix { left: erase_box(left), operator, span: o() },
        Expression::Index { left, index, .. } => {
            Expression::Index { left: erase_box(left), index: erase_box(index), span: o() }
        }
        Expression::Call { function, args, .. } => {
            Expression::Call { function: erase_box(function), args: args.into_iter().map(erase).collect(), span: o() }
        }
        Expression::Block { body, .. } => Expression::Block { body: erase_block(body), span: o() },
        Expression::Match { target, arms, .. } => Expression::Match {
            target: erase_box(target),
            arms: arms
                .into_iter()
                .map(|a| MatchArm { pattern: erase(a.pattern), body: erase(a.body), span: o() })
                .collect(),
            span: o(),
        },
        Expression::Field { object, name, .. } => Expression::Field { object: erase_box(object), name, span: o() },
        Expression::MethodCall { object, name, args, .. } => Expression::MethodCall {
            object: erase_box(object),
            name,
            args: args.into_iter().map(erase).collect(),
            span: o(),
        },
        Expression::Lambda { params, return_type, body, .. } => Expression::Lambda {
            params: params.into_iter().map(erase_param).collect(),
            return_type,
            body: erase_block(body),
            span: o(),
        },
        Expression::Range { start, end, range_kind, .. } => Expression::Range {
            start: start.map(erase_box),
            end: end.map(erase_box),
            range_kind,
            span: o(),
        },
    }
}

fn erase_stmt(s: Statement) -> Statement {
    match s {
        Statement::Expression { expression, .. } => Statement::Expression { expression: erase(expression), span: o() },
        Statement::Var { name, value, .. } => Statement::Var { name, value: erase(value), span: o() },
        Statement::Let { name, value, .. } => Statement::Let { name, value: erase(value), span: o() },
        Statement::Const { name, value, .. } => Statement::Const { name, value: erase(value), span: o() },
        Statement::If(i) => Statement::If(IfStatement {
            condition: erase(i.condition),
            then_block: erase_block(i.then_block),
            else_if: i
                .else_if
                .into_iter()
                .map(|e| ElseIf { condition: erase(e.condition), block: erase_block(e.block), span: o() })
                .collect(),
            else_block: erase_block(i.else_block),
            span: o(),
        }),
        Statement::While { condition, body, .. } => {
            Statement::While { condition: erase(condition), body: erase_block(body), span: o() }
        }
        Statement::ForRange { variable, iterable, body, .. } => {
            Statement::ForRange { variable, iterable: erase(iterable), body: erase_block(body), span: o() }
        }
        Statement::ForCounter { init, condition, post, body, .. } => Statement::ForCounter {
            init: Box::new(erase_stmt(*init)),
            condition: erase(condition),
            post: erase(post),
            body: erase_block(body),
            span: o(),
        },
        Statement::Break { .. } => Statement::Break { span: o() },
        Statement::Continue { .. } => Statement::Continue { span: o() },
        Statement::Return { value, .. } => Statement::Return { value: value.map(erase), span: o() },
        Statement::ExternFunc { name, params, return_type, .. } => Statement::ExternFunc {
            name,
            params: params.into_iter().map(erase_param).collect(),
            return_type,
            span: o(),
        },
        Statement::Func { name, params, return_type, body, .. } => Statement::Func {
            name,
            params: params.into_iter().map(erase_param).collect(),
            return_type,
            body: erase_block(body),
            span: o(),
            ending_span: o(),
        },
        Statement::Struct { name, fields, .. } => {
            Statement::Struct { name, fields: fields.into_iter().map(erase_param).collect(), span: o() }
        }
        Statement::Extend { target, methods, .. } => {
            Statement::Extend { target, methods: erase_block(methods), span: o() }
        }
    }
}

fn ident(s: &str) -> Expression {
    Expression::Identifier { name: s.to_string(), span: o() }
}
fn num(n: isize) -> Expression {
    Expression::IntLiteral { val: n, span: o() }
}
fn boolean(b: bool) -> Expression {
    Expression::BoolLiteral { val: b, span: o() }
}
fn string(s: &str) -> Expression {
    Expression::StringLiteral { val: s.to_string(), span: o() }
}
fn prefix(op: Token, r: Expression) -> Expression {
    Expression::Prefix { operator: op, right: Box::new(r), span: o() }
}
fn infix(l: Expression, op: Token, r: Expression) -> Expression {
    Expression::Infix { left: Box::new(l), operator: op, right: Box::new(r), span: o() }
}
fn postfix(l: Expression, op: Token) -> Expression {
    Expression::Postfix { left: Box::new(l), operator: op, span: o() }
}
fn call(f: Expression, args: Vec<Expression>) -> Expression {
    Expression::Call { function: Box::new(f), args, span: o() }
}
fn index(l: Expression, i: Expression) -> Expression {
    Expression::Index { left: Box::new(l), index: Box::new(i), span: o() }
}
fn block(b: Vec<Statement>) -> Expression {
    Expression::Block { body: b, span: o() }
}
fn match_expr(t: Expression, arms: Vec<MatchArm>) -> Expression {
    Expression::Match { target: Box::new(t), arms, span: o() }
}
fn arm(pattern: Expression, body: Expression) -> MatchArm {
    MatchArm { pattern, body, span: o() }
}
fn expr_stmt(e: Expression) -> Statement {
    Statement::Expression { expression: e, span: o() }
}
fn let_stmt(name: &str, v: Expression) -> Statement {
    Statement::Let { name: name.to_string(), value: v, span: o() }
}
fn param(name: &str, t: Type) -> FuncParam {
    FuncParam { name: name.to_string(), param_type: t, span: o(), kind: BindingKind::Param, is_ref: false }
}
fn field_param(name: &str, t: Type) -> FuncParam {
    FuncParam { name: name.to_string(), param_type: t, span: o(), kind: BindingKind::Var, is_ref: false }
}
fn t_path(segments: &[&str]) -> Type {
    Type::Named(TypePath { segments: segments.iter().map(|s| s.to_string()).collect() })
}
fn t_generic(name: &str, p: Type) -> Type {
    Type::Generic { name: name.to_string(), param: Box::new(p) }
}

fn parse_expr(input: &str) -> Expression {
    let mut parser = Parser::new(Lexer::new(input));
    erase(parser.parse_expression(Precedence::Lowest).unwrap())
}

fn parse_stmt(input: &str) -> Statement {
    let mut parser = Parser::new(Lexer::new(input));
    erase_stmt(parser.parse_statement().unwrap())
}

fn assert_stmt_tests(cases: Vec<(&str, Statement)>) {
    for (input, expected) in cases {
        assert_eq!(parse_stmt(input), expected, "Failing case: {}", input);
    }
}

#[test]
fn arithmetic_operations() {
    let cases = vec![
        ("5", num(5)),
        ("-5", prefix(Token::Subtract, num(5))),
        ("!true", prefix(Token::LogicNot, boolean(true))),
        ("(((5) ** (3)) ** (2))", infix(infix(num(5), Token::Power, num(3)), Token::Power, num(2))),
        (
            "a=b=5+5**5**2*-x==!true!=false",
            infix(
                ident("a"),
                Token::Assign,
                infix(
                    ident("b"),
                    Token::Assign,
                    infix(
                        infix(
                            infix(
                                num(5),
                                Token::Add,
                                infix(
                                    infix(num(5), Token::Power, infix(num(5), Token::Power, num(2))),
                                    Token::Multiply,
                                    prefix(Token::Subtract, ident("x")),
                                ),
                            ),
                            Token::Equals,
                            prefix(Token::LogicNot, boolean(true)),
                        ),
                        Token::NotEquals,
                        boolean(false),
                    ),
                ),
            ),
        ),
    ];
    for (input, expected) in cases {
        assert_eq!(parse_expr(input), expected, "Failing case: {}", input);
    }
}

#[test]
fn redshift_blueshift() {
    assert_stmt_tests(vec![
        ("let mask = 1 << 8", let_stmt("mask", infix(num(1), Token::LeftShift, num(8)))),
        (
            "let res = base + 2 >> offset - 1",
            let_stmt(
                "res",
                infix(
                    infix(ident("base"), Token::Add, num(2)),
                    Token::RightShift,
                    infix(ident("offset"), Token::Subtract, num(1)),
                ),
            ),
        ),
    ]);
}

#[test]
fn matching_souls() {
    assert_stmt_tests(vec![
        (
            "let user = match res {
                    Win(u) => u,
                    Fail(r) => {
                        println(\"Error: \" + r)
                        NewUser()
                    }
                }",
            let_stmt(
                "user",
                match_expr(
                    ident("res"),
                    vec![
                        arm(call(ident("Win"), vec![ident("u")]), ident("u")),
                        arm(
                            call(ident("Fail"), vec![ident("r")]),
                            block(vec![
                                expr_stmt(call(ident("println"), vec![infix(string("Error: "), Token::Add, ident("r"))])),
                                expr_stmt(call(ident("NewUser"), Vec::new())),
                            ]),
                        ),
                    ],
                ),
            ),
        ),
        (
            "match res {
                    Win(num) => {
                        match num {
                            num > 5 => true,
                            num <= 5 => false,
                        }
                    }
                    Fail(r) => print(r)
                }",
            expr_stmt(match_expr(
                ident("res"),
                vec![
                    arm(
                        call(ident("Win"), vec![ident("num")]),
                        block(vec![expr_stmt(match_expr(
                            ident("num"),
                            vec![
                                arm(infix(ident("num"), Token::Greater, num(5)), boolean(true)),
                                arm(infix(ident("num"), Token::LessOrEquals, num(5)), boolean(false)),
                            ],
                        ))]),
                    ),
                    arm(call(ident("Fail"), vec![ident("r")]), call(ident("print"), vec![ident("r")])),
                ],
            )),
        ),
    ]);
}

#[test]
fn logic() {
    let cases = vec![
        ("a || b && c", infix(ident("a"), Token::LogicOr, infix(ident("b"), Token::LogicAnd, ident("c")))),
        (
            "1 # 2 ^ 3 & 4",
            infix(num(1), Token::BitOr, infix(num(2), Token::BitXOR, infix(num(3), Token::BitAnd, num(4)))),
        ),
        ("~x", prefix(Token::BitNot, ident("x"))),
    ];
    for (input, expected) in cases {
        assert_eq!(parse_expr(input), expected, "Failing case: {}", input);
    }
}

#[test]
fn piper() {
    let input = "match res {Win(v) => fetch(v)|, Fail(e) => e}";
    let expected = match_expr(
        ident("res"),
        vec![
            arm(call(ident("Win"), vec![ident("v")]), postfix(call(ident("fetch"), vec![ident("v")]), Token::Pipe)),
            arm(call(ident("Fail"), vec![ident("e")]), ident("e")),
        ],
    );
    assert_eq!(parse_expr(input), expected, "Failing case: {}", input);
}

#[test]
fn basic_statements() {
    assert_stmt_tests(vec![
        ("let x = 5", let_stmt("x", num(5))),
        (
            "const THREE_HOURS_IN_SECONDS = 3 * 24 * 60 ** 2",
            Statement::Const {
                name: "THREE_HOURS_IN_SECONDS".to_string(),
                value: infix(infix(num(3), Token::Multiply, num(24)), Token::Multiply, infix(num(60), Token::Power, num(2))),
                span: o(),
            },
        ),
        (
            "\
if a > 7 {
    let b = a - 3
} else if a < 3 {
    let b = a + 4
} else if a < 5 {
    let b = a - 2
} else {
    let b = a + 5
}",
            Statement::If(IfStatement {
                condition: infix(ident("a"), Token::Greater, num(7)),
                then_block: vec![let_stmt("b", infix(ident("a"), Token::Subtract, num(3)))],
                else_if: vec![
                    ElseIf {
                        condition: infix(ident("a"), Token::Less, num(3)),
                        block: vec![let_stmt("b", infix(ident("a"), Token::Add, num(4)))],
                        span: o(),
                    },
                    ElseIf {
                        condition: infix(ident("a"), Token::Less, num(5)),
                        block: vec![let_stmt("b", infix(ident("a"), Token::Subtract, num(2)))],
                        span: o(),
                    },
                ],
                else_block: vec![let_stmt("b", infix(ident("a"), Token::Add, num(5)))],
                span: o(),
            }),
        ),
    ]);
}

#[test]
fn for_whose_advantage() {
    assert_stmt_tests(vec![
        (
            "for i = someVar; i < 10; i++ {
    let a = 5 * i
    let b = i * 3
}",
            Statement::ForCounter {
                init: Box::new(let_stmt("i", ident("someVar"))),
                condition: infix(ident("i"), Token::Less, num(10)),
                post: postfix(ident("i"), Token::Increment),
                body: vec![
                    let_stmt("a", infix(num(5), Token::Multiply, ident("i"))),
                    let_stmt("b", infix(ident("i"), Token::Multiply, num(3))),
                ],
                span: o(),
            },
        ),
        (
            "for x in thru(1, 10) {
    let a = 5 * x
    let b = x * 3
}",
            Statement::ForRange {
                variable: "x".to_string(),
                iterable: call(ident("thru"), vec![num(1), num(10)]),
                body: vec![
                    let_stmt("a", infix(num(5), Token::Multiply, ident("x"))),
                    let_stmt("b", infix(ident("x"), Token::Multiply, num(3))),
                ],
                span: o(),
            },
        ),
        (
            "for left < right {
    left++
    right--
}",
            Statement::While {
                condition: infix(ident("left"), Token::Less, ident("right")),
                body: vec![
                    expr_stmt(postfix(ident("left"), Token::Increment)),
                    expr_stmt(postfix(ident("right"), Token::Decrement)),
                ],
                span: o(),
            },
        ),
    ]);
}

#[test]
fn fun_fetch_user_ii() {
    let input = "fun fetch_user(db: Sql.databases.psql, count: int) [Win(User) | Fail(NotFound) | Fail(NotConnected)] {
    return count + 5
}";
    let mut parser = Parser::new(Lexer::new(input));
    let actual = erase_stmt(parser.parse_function().unwrap());
    assert_eq!(
        actual,
        Statement::Func {
            name: "fetch_user".to_string(),
            params: vec![
                param("db", t_path(&["Sql", "databases", "psql"])),
                param("count", Type::Primitive(PrimitiveType::Int)),
            ],
            return_type: Some(Type::Union(vec![
                t_generic("Win", t_path(&["User"])),
                t_generic("Fail", t_path(&["NotFound"])),
                t_generic("Fail", t_path(&["NotConnected"])),
            ])),
            body: vec![Statement::Return { value: Some(infix(ident("count"), Token::Add, num(5))), span: o() }],
            span: o(),
            ending_span: o(),
        }
    )
}

#[test]
fn binary_search() {
    assert_stmt_tests(vec![(
        "let ans = arr[mid + 1]",
        let_stmt("ans", index(ident("arr"), infix(ident("mid"), Token::Add, num(1)))),
    ),
    (
        "fun BinarySearch(arr: std.vector, target: int) [Win(int) | Fail(NotFound)] {
    let left = 0
    let right = len(arr)

    for left < right {
        let mid = left + (right - left) / 2

        if arr[mid] < target {
            left = mid + 1
        } else if arr[mid] > target {
            right = mid - 1
        } else {
            return Win(mid)
        }
    }

    return Fail(NotFound)
}",
        Statement::Func {
            name: "BinarySearch".to_string(),
            params: vec![param("arr", t_path(&["std", "vector"])), param("target", Type::Primitive(PrimitiveType::Int))],
            return_type: Some(Type::Union(vec![
                t_generic("Win", Type::Primitive(PrimitiveType::Int)),
                t_generic("Fail", t_path(&["NotFound"])),
            ])),
            body: vec![
                let_stmt("left", num(0)),
                let_stmt("right", call(ident("len"), vec![ident("arr")])),
                Statement::While {
                    condition: infix(ident("left"), Token::Less, ident("right")),
                    body: vec![
                        let_stmt(
                            "mid",
                            infix(
                                ident("left"),
                                Token::Add,
                                infix(infix(ident("right"), Token::Subtract, ident("left")), Token::Divide, num(2)),
                            ),
                        ),
                        Statement::If(IfStatement {
                            condition: infix(index(ident("arr"), ident("mid")), Token::Less, ident("target")),
                            then_block: vec![expr_stmt(infix(
                                ident("left"),
                                Token::Assign,
                                infix(ident("mid"), Token::Add, num(1)),
                            ))],
                            else_if: vec![ElseIf {
                                condition: infix(index(ident("arr"), ident("mid")), Token::Greater, ident("target")),
                                block: vec![expr_stmt(infix(
                                    ident("right"),
                                    Token::Assign,
                                    infix(ident("mid"), Token::Subtract, num(1)),
                                ))],
                                span: o(),
                            }],
                            else_block: vec![Statement::Return {
                                value: Some(call(ident("Win"), vec![ident("mid")])),
                                span: o(),
                            }],
                            span: o(),
                        }),
                    ],
                    span: o(),
                },
                Statement::Return { value: Some(call(ident("Fail"), vec![ident("NotFound")])), span: o() },
            ],
            span: o(),
            ending_span: o(),
        },
    )]);
}

#[test]
fn sprouting_stem() {
    assert_stmt_tests(vec![(
        "let result = url ~> fetch ~> parse ~> validate",
        let_stmt(
            "result",
            call(ident("validate"), vec![call(ident("parse"), vec![call(ident("fetch"), vec![ident("url")])])]),
        ),
    )]);
}

#[test]
fn structuring_answer() {
    assert_stmt_tests(vec![(
        "struct Person {
    name: string,
    age: int,
    weight: int
}",
        Statement::Struct {
            name: "Person".to_string(),
            fields: vec![
                field_param("name", Type::Primitive(PrimitiveType::String)),
                field_param("age", Type::Primitive(PrimitiveType::Int)),
                field_param("weight", Type::Primitive(PrimitiveType::Int)),
            ],
            span: o(),
        },
    )]);
}

#[test]
fn function_body_keeps_all_statements() {
    let input = "fun outer() {\
            if c {\
                y()\
            }\
            z()\
        }";
    let mut parser = Parser::new(Lexer::new(input));
    let stmt = parser.parse_statement().expect("outer must be parsed");
    match stmt {
        Statement::Func { body, .. } => assert_eq!(body.len(), 2),
        other => panic!("expected Fun, got {:?}", other),
    }
}

#[test]
fn program_splits_declarations_from_code() {
    let input = "package demo\nfun f() {}\nlet x = 1\nstruct S {}\nprint(x)";
    let mut parser = Parser::new(Lexer::new(input));
    let program = parser.parse_program("main").unwrap();
    assert_eq!(program.package, "demo");
    assert_eq!(program.declarations.len(), 2);
    assert_eq!(program.main.len(), 2);
    assert!(program.declarations.iter().all(|s| s.is_declaration()));
    assert!(program.main.iter().all(|s| !s.is_declaration()));
}

#[test]
fn program_without_package_takes_the_default() {
    let mut parser = Parser::new(Lexer::new("let x = 1"));
    let program = parser.parse_program("fallback").unwrap();
    assert_eq!(program.package, "fallback");
}

#[test]
fn deep_nesting_is_refused() {
    let mut input = String::new();
    for _ in 0..100 {
        input.push('(');
    }
    input.push('1');
    for _ in 0..100 {
        input.push(')');
    }
    let mut parser = Parser::new(Lexer::new(&input));
    assert!(matches!(parser.parse_expression(Precedence::Lowest), Err(violette::parser::types::ParseError::TooDeep { .. })));
}

#[test]
fn imports_are_read() {
    let mut parser = Parser::new(Lexer::new("import math.{abs, sqrt}\nimport io\nprint(1)"));
    let program = parser.parse_program("main").unwrap();
    assert_eq!(program.imports.len(), 2);
    assert_eq!(program.imports[0].module, "math");
    assert_eq!(program.imports[0].symbols, vec!["abs".to_string(), "sqrt".to_string()]);
    assert_eq!(program.imports[1].module, "io");
}

#[test]
fn program_shapes() {
    let good = Parser::new(Lexer::new("fun f(x: int) [int] {\n return x\n}\nlet y = match 1 {\n 1 => 2\n _ => 3\n}")).parse_program("main").unwrap();
    assert_eq!(program_shape(&good), (true, true));
    let empty_call = Parser::new(Lexer::new("let y = match x {\n Some() => 1\n}")).parse_program("main").unwrap();
    assert_eq!(program_shape(&empty_call), (true, false));
}

#[test]
fn empty_source_gives_an_empty_program() {
    let p = Parser::new(Lexer::new("")).parse_program("main").unwrap();
    assert_eq!(p.package, "main");
    assert!(p.imports.is_empty() && p.declarations.is_empty() && p.main.is_empty());
}

#[test]
fn first_statement_has_the_kind_its_keyword_announces() {
    let p = Parser::new(Lexer::new("let answer = 42\nfun f() {}")).parse_program("main").unwrap();
    assert!(matches!(&p.main[0], Statement::Let { name, .. } if name == "answer"));
    assert!(matches!(&p.declarations[0], Statement::Func { name, .. } if name == "f"));
    let mut parser = Parser::new(Lexer::new("import math.{sqrt, pow}"));
    let items = parser.parse_imports().unwrap();
    assert_eq!(items.len(), 1);
    assert_eq!(items[0].module, "math");
    assert_eq!(items[0].symbols, vec!["sqrt".to_string(), "pow".to_string()]);
    let mut parser = Parser::new(Lexer::new("Point { x: 1 }"));
    let e = parser.parse_struct_literal(Span::origin()).unwrap();
    assert!(matches!(&e, Expression::StructLiteral { name, fields, .. } if name == "Point" && fields.len() == 1));
    let mut parser = Parser::new(Lexer::new("7"));
    assert_eq!(erase(parser.parse_expression(Precedence::Lowest).unwrap()), Expression::IntLiteral { val: 7, span: o() });
}

#[test]
fn two_operands_around_one_operator() {
    let mut parser = Parser::new(Lexer::new("a + b"));
    let e = parser.parse_expression(Precedence::Lowest).unwrap();
    assert_eq!(
        erase(e),
        Expression::Infix {
            left: Box::new(Expression::Identifier { name: "a".to_string(), span: o() }),
            operator: Token::Add,
            right: Box::new(Expression::Identifier { name: "b".to_string(), span: o() }),
            span: o(),
        }
    );
    let mut parser = Parser::new(Lexer::new("20 == x"));
    let e = parser.parse_expression(Precedence::Lowest).unwrap();
    assert!(matches!(e, Expression::Infix { operator: Token::Equals, .. }));
}
