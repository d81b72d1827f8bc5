//! The C text of an expression that holds no lambda and no `match`, as a
//! function of what the type checker knows and of the extern functions.
use vstd::prelude::*;

use crate::codegen::codegen::{c_ident_text, c_type_text, float_text, fn_free, operator_text, unsupported_expression};
use crate::codegen::error::CodegenError;
use crate::lexer::token::Token;
use crate::parser::expression::{Expression, RangeKind, StructLiteralField};
use crate::parser::statement::{ElseIf, IfStatement, Statement};
use crate::parser::shape::{expr_size, exprs_size, fields_size, lemma_exprs_size};
use crate::text::{digits_text, escape_text, int_text, joined, lines_spec, utf8_len};
use crate::typechecker::checker::{bound, method_key};
use crate::typechecker::env::{lookup_in, EntityView};
use crate::typechecker::error::BindingKind;
use crate::typechecker::types::{debug_text, TyView};
use crate::typechecker::typing::{expr_no_extern, ty_of, Typing};

verus! {

/// The view of a code generation error.
pub enum CgErr {
    Unsupported(Seq<char>),
    Unexpected(Seq<char>),
}

impl View for CodegenError {
    type V = CgErr;

    open spec fn view(&self) -> CgErr {
        match self {
            CodegenError::Unsupported(m) => CgErr::Unsupported(m@),
            CodegenError::Unexpected(m) => CgErr::Unexpected(m@),
        }
    }
}

/// The view of a result of code generation.
pub open spec fn text_of(r: Result<String, CodegenError>) -> Result<Seq<char>, CgErr> {
    match r {
        Ok(s) => Ok(s@),
        Err(e) => Err(e@),
    }
}

/// The expression holds no lambda and no `match` (those are lifted to
/// functions and numbered).
pub open spec fn plain_expr(e: Expression) -> bool
    decreases e,
{
    match e {
        Expression::Lambda { .. } => false,
        Expression::Match { .. } => false,
        Expression::StructLiteral { fields, .. } => plain_fields(fields@),
        Expression::Prefix { right, .. } => plain_expr(*right),
        Expression::Infix { left, right, .. } => plain_expr(*left) && plain_expr(*right),
        Expression::Postfix { left, .. } => plain_expr(*left),
        Expression::Index { left, index, .. } => plain_expr(*left) && plain_expr(*index),
        Expression::Call { function, args, .. } => plain_expr(*function) && plain_exprs(args@),
        Expression::Field { object, .. } => plain_expr(*object),
        Expression::MethodCall { object, args, .. } => plain_expr(*object) && plain_exprs(args@),
        _ => true,
    }
}

pub open spec fn plain_exprs(s: Seq<Expression>) -> bool
    decreases s,
{
    if s.len() == 0 {
        true
    } else {
        plain_exprs(s.drop_last()) && plain_expr(s.last())
    }
}

pub open spec fn plain_fields(s: Seq<StructLiteralField>) -> bool
    decreases s,
{
    if s.len() == 0 {
        true
    } else {
        plain_fields(s.drop_last()) && plain_expr(*s.last().field_val)
    }
}

/// The C operator of `op`, or the error for a token that is none.
pub open spec fn c_operator(op: Token) -> Result<Seq<char>, CgErr> {
    match operator_text(op) {
        Some(t) => Ok(t),
        None => Err(CgErr::Unexpected("Not an operator"@)),
    }
}

/// The name a call of the function written `f` uses: `main`, runtime
/// names and extern functions keep their name, a function of the program
/// gets the prefix `vio_user_`.
pub open spec fn c_call_name(g: Typing, externs: Set<Seq<char>>, f: Seq<char>) -> Seq<char> {
    if f == "main"@ || ("vio_"@.len() <= f.len() && f.take(4) == "vio_"@) || externs.contains(f) {
        f
    } else if g.funcs.contains_key(f) {
        "vio_user_"@ + f
    } else {
        f
    }
}

/// The runtime suffix of `print` and `println` for an argument type.
pub open spec fn print_suffix(t: TyView) -> Option<Seq<char>> {
    match t {
        TyView::Int => Some("int"@),
        TyView::Float => Some("float"@),
        TyView::Bool => Some("bool"@),
        TyView::String => Some("string"@),
        TyView::Char => Some("char"@),
        _ => None,
    }
}

/// The function a method call `object.name(..)` calls, and whether the
/// object is left out of the arguments.
pub open spec fn method_target(g: Typing, externs: Set<Seq<char>>, object: Expression, name: Seq<char>) -> (
    Seq<char>,
    bool,
) {
    let by_type = match ty_of(g, object, None) {
        TyView::Struct(s) => struct_method_c_name(g, s, name),
        _ => "vio_user_"@ + name,
    };
    match object {
        Expression::Identifier { name: obj, .. } => if g.structs.contains_key(obj@) {
            ("vio_user_"@ + obj@ + "_"@ + name, true)
        } else if name == "main"@ || ("vio_"@.len() <= name.len() && name.take(4) == "vio_"@) || externs.contains(
            name,
        ) {
            (name, false)
        } else if lookup_in(g.scopes, obj@) is None {
            ("vio_user_"@ + name, true)
        } else {
            (by_type, false)
        },
        _ => (by_type, false),
    }
}

/// The C function a method `name` called on a value of the struct `s`
/// calls: the struct's method `vio_user_s_name`, or, when the struct has no
/// such method and a function of the name is declared, that function: a
/// function whose first parameter is the struct is a method of it.
pub open spec fn struct_method_c_name(g: Typing, s: Seq<char>, name: Seq<char>) -> Seq<char> {
    if !g.funcs.contains_key(method_key(s, name)) && g.funcs.contains_key(name) {
        "vio_user_"@ + name
    } else {
        "vio_user_"@ + s + "_"@ + name
    }
}

/// `callee(a1, a2, ..)`.
pub open spec fn call_text(callee: Seq<char>, args: Seq<Seq<char>>) -> Seq<char> {
    callee + "("@ + joined(args, ", "@) + ")"@
}

/// The C text of `e`: its code, or the first error met in writing it.
pub open spec fn c_expr(g: Typing, externs: Set<Seq<char>>, e: Expression) -> Result<Seq<char>, CgErr>
    decreases expr_size(e), 0int,
{
    match e {
        Expression::IntLiteral { val, .. } => Ok(int_text(val as int)),
        Expression::FloatLiteral { val, .. } => Ok(float_text(val@)),
        Expression::BoolLiteral { val, .. } => Ok(
            if val {
                "true"@
            } else {
                "false"@
            },
        ),
        Expression::StringLiteral { val, .. } => Ok(
            "vio_str_from_literal(\""@ + escape_text(val@) + "\", "@ + digits_text(utf8_len(val@)) + ")"@,
        ),
        Expression::StructLiteral { name, fields, .. } => if fields@.len() == 0 {
            Ok("("@ + name@ + "){0}"@)
        } else {
            match c_fields(g, externs, fields@) {
                Ok(parts) => Ok("("@ + name@ + "){ ."@ + joined(parts, ", ."@) + " }"@),
                Err(m) => Err(m),
            }
        },
        Expression::Prefix { operator, right, .. } => if operator is BitAnd {
            match c_expr(g, externs, *right) {
                Ok(r) => Ok("&"@ + r),
                Err(m) => Err(m),
            }
        } else {
            match c_operator(operator) {
                Ok(o) => match c_expr(g, externs, *right) {
                    Ok(r) => Ok(o + r),
                    Err(m) => Err(m),
                },
                Err(m) => Err(m),
            }
        },
        Expression::Infix { left, operator, right, .. } => {
            let l = c_expr(g, externs, *left);
            let r = c_expr(g, externs, *right);
            if operator is Add && ty_of(g, *left, None) is String && ty_of(g, *right, None) is String {
                match (l, r) {
                    (Ok(a), Ok(b)) => Ok("vio_str_concat("@ + a + ", "@ + b + ")"@),
                    (Err(m), _) => Err(m),
                    (_, Err(m)) => Err(m),
                }
            } else if operator is Power {
                match (l, r) {
                    (Ok(a), Ok(b)) => Ok("pow("@ + a + ", "@ + b + ")"@),
                    (Err(m), _) => Err(m),
                    (_, Err(m)) => Err(m),
                }
            } else {
                match (l, c_operator(operator), r) {
                    (Ok(a), Ok(o), Ok(b)) => Ok("("@ + a + " "@ + o + " "@ + b + ")"@),
                    (Err(m), _, _) => Err(m),
                    (_, Err(m), _) => Err(m),
                    (_, _, Err(m)) => Err(m),
                }
            }
        },
        Expression::Postfix { left, operator, .. } => match (c_expr(g, externs, *left), c_operator(operator)) {
            (Ok(a), Ok(o)) => Ok(a + o),
            (Err(m), _) => Err(m),
            (_, Err(m)) => Err(m),
        },
        Expression::Index { left, index, .. } => match (c_expr(g, externs, *left), c_expr(g, externs, *index)) {
            (Ok(a), Ok(b)) => Ok("vio_str_get("@ + a + ", "@ + b + ")"@),
            (Err(m), _) => Err(m),
            (_, Err(m)) => Err(m),
        },
        Expression::Identifier { name, .. } => {
            let clean = c_ident_text(name@);
            match lookup_in(g.scopes, name@) {
                Some(entity) => if entity.ty is Ref {
                    Ok("(*"@ + clean + ")"@)
                } else {
                    Ok(clean)
                },
                None => Ok(clean),
            }
        },
        Expression::Call { function, args, .. } => c_call(g, externs, *function, args@),
        Expression::MethodCall { object, name, args, .. } => c_method_call(g, externs, *object, name@, args@),
        Expression::Field { object, name, .. } => match c_expr(g, externs, *object) {
            Ok(o) => Ok(o + "."@ + name@),
            Err(m) => Err(m),
        },
        Expression::Block { .. } => Err(CgErr::Unsupported(unsupported_expression(e))),
        Expression::Range { .. } => Err(CgErr::Unsupported(unsupported_expression(e))),
        _ => Err(CgErr::Unsupported(Seq::empty())),
    }
}

/// The C text of `function(args)`: `print` and `println` of one argument
/// call the runtime function for the argument's type, `scanln()` the
/// runtime's; any other call its callee's C name.
pub open spec fn c_call(g: Typing, externs: Set<Seq<char>>, function: Expression, args: Seq<Expression>) -> Result<
    Seq<char>,
    CgErr,
>
    decreases expr_size(function) + exprs_size(args), 2int,
{
    proof {
        lemma_exprs_size(args);
    }
    let special = match function {
        Expression::Identifier { name, .. } => if (name@ == "print"@ || name@ == "println"@) && args.len() == 1 {
            Some(
                match print_suffix(ty_of(g, args[0], None)) {
                    Some(suffix) => match c_expr(g, externs, args[0]) {
                        Ok(a) => Ok("vio_"@ + name@ + "_"@ + suffix + "("@ + a + ")"@),
                        Err(m) => Err(m),
                    },
                    None => Err(CgErr::Unsupported("print for this type: "@ + debug_text(ty_of(g, args[0], None)))),
                },
            )
        } else if name@ == "scanln"@ && args.len() == 0 {
            Some(Ok("vio_"@ + name@ + "()"@))
        } else {
            None
        },
        _ => None,
    };
    match special {
        Some(t) => t,
        None => match c_expr(g, externs, function) {
            Ok(f) => match c_exprs(g, externs, args) {
                Ok(parts) => Ok(call_text(c_call_name(g, externs, f), parts)),
                Err(m) => Err(m),
            },
            Err(m) => Err(m),
        },
    }
}

/// The C text of `object.name(args)`: a call of the function the method
/// call names, with the object first unless the call is static.
pub open spec fn c_method_call(
    g: Typing,
    externs: Set<Seq<char>>,
    object: Expression,
    name: Seq<char>,
    args: Seq<Expression>,
) -> Result<Seq<char>, CgErr>
    decreases expr_size(object) + exprs_size(args), 2int,
{
    let (callee, is_static) = method_target(g, externs, object, name);
    let first: Result<Seq<Seq<char>>, CgErr> = if is_static {
        Ok(Seq::empty())
    } else {
        match c_expr(g, externs, object) {
            Ok(o) => Ok(seq![o]),
            Err(m) => Err(m),
        }
    };
    match first {
        Ok(pre) => match c_exprs(g, externs, args) {
            Ok(parts) => Ok(call_text(callee, pre + parts)),
            Err(m) => Err(m),
        },
        Err(m) => Err(m),
    }
}

/// The C declaration `T name = value;` of a binding whose value has a type
/// without function types.
pub open spec fn binding_text(g: Typing, externs: Set<Seq<char>>, name: Seq<char>, value: Expression) -> Result<
    Seq<char>,
    CgErr,
> {
    match c_expr(g, externs, value) {
        Ok(v) => Ok(c_type_text(ty_of(g, value, None)) + " "@ + name + " = "@ + v + ";"@),
        Err(m) => Err(m),
    }
}

/// A statement whose C text `c_stmt` gives: a binding, a `return` or an
/// expression statement of a plain expression, where the value of a
/// binding has a type without function types.
pub open spec fn plain_stmt(g: Typing, st: Statement) -> bool {
    match st {
        Statement::Let { value, .. } => plain_expr(value) && expr_no_extern(value) && fn_free(ty_of(g, value, None)),
        Statement::Var { value, .. } => plain_expr(value) && expr_no_extern(value) && fn_free(ty_of(g, value, None)),
        Statement::Const { value, .. } => plain_expr(value) && expr_no_extern(value) && fn_free(ty_of(g, value, None)),
        Statement::Return { value, .. } => match value {
            Some(v) => plain_expr(v) && expr_no_extern(v),
            None => true,
        },
        Statement::Expression { expression, .. } => plain_expr(expression) && expr_no_extern(expression),
        _ => false,
    }
}

/// The C text of a plain statement.
pub open spec fn c_stmt(g: Typing, externs: Set<Seq<char>>, st: Statement) -> Result<Seq<char>, CgErr> {
    match st {
        Statement::Let { name, value, .. } => binding_text(g, externs, name@, value),
        Statement::Var { name, value, .. } => binding_text(g, externs, name@, value),
        Statement::Const { name, value, .. } => binding_text(g, externs, name@, value),
        Statement::Return { value, .. } => match value {
            Some(v) => match c_expr(g, externs, v) {
                Ok(t) => Ok("return "@ + t + ";"@),
                Err(m) => Err(m),
            },
            None => Ok("return;"@),
        },
        Statement::Expression { expression, .. } => match c_expr(g, externs, expression) {
            Ok(t) => Ok(t + ";"@),
            Err(m) => Err(m),
        },
        _ => Err(CgErr::Unsupported(Seq::empty())),
    }
}

/// The typing after the code of a plain statement: a binding binds its
/// name, in the innermost scope, to the type of its value.
pub open spec fn after_stmt(g: Typing, st: Statement) -> Typing {
    match st {
        Statement::Let { name, value, span } => Typing {
            scopes: bound(g.scopes, name@, EntityView { ty: ty_of(g, value, None), kind: BindingKind::Var, span }),
            ..g
        },
        Statement::Var { name, value, span } => Typing {
            scopes: bound(g.scopes, name@, EntityView { ty: ty_of(g, value, None), kind: BindingKind::Var, span }),
            ..g
        },
        Statement::Const { name, value, span } => Typing {
            scopes: bound(g.scopes, name@, EntityView { ty: ty_of(g, value, None), kind: BindingKind::Const, span }),
            ..g
        },
        _ => g,
    }
}

/// The typing after the code of the statements, one after another.
pub open spec fn typing_after(g: Typing, s: Seq<Statement>) -> Typing
    decreases s.len(),
{
    if s.len() == 0 {
        g
    } else {
        after_stmt(typing_after(g, s.drop_last()), s.last())
    }
}

/// Each statement of the block is plain where it stands.
pub open spec fn plain_block(g: Typing, s: Seq<Statement>) -> bool
    decreases s.len(),
{
    if s.len() == 0 {
        true
    } else {
        plain_block(g, s.drop_last()) && plain_stmt(typing_after(g, s.drop_last()), s.last())
    }
}

/// Each line indented by four spaces.
pub open spec fn indented(lines: Seq<Seq<char>>) -> Seq<Seq<char>> {
    Seq::new(lines.len(), |i: int| "    "@ + lines[i])
}

/// The indented lines of the code of the statements of a block, or the
/// first error met.
pub open spec fn c_block_lines(g: Typing, externs: Set<Seq<char>>, s: Seq<Statement>) -> Result<
    Seq<Seq<char>>,
    CgErr,
>
    decreases s.len(),
{
    if s.len() == 0 {
        Ok(Seq::empty())
    } else {
        match c_block_lines(g, externs, s.drop_last()) {
            Ok(ls) => match c_stmt(typing_after(g, s.drop_last()), externs, s.last()) {
                Ok(t) => Ok(ls + indented(lines_spec(t))),
                Err(m) => Err(m),
            },
            Err(m) => Err(m),
        }
    }
}

/// The name a binding of a string value gives, if the statement is one.
pub open spec fn string_binding_of(g: Typing, st: Statement) -> Seq<Seq<char>> {
    match st {
        Statement::Let { name, value, .. } => if ty_of(g, value, None) is String {
            seq![name@]
        } else {
            Seq::empty()
        },
        Statement::Var { name, value, .. } => if ty_of(g, value, None) is String {
            seq![name@]
        } else {
            Seq::empty()
        },
        Statement::Const { name, value, .. } => if ty_of(g, value, None) is String {
            seq![name@]
        } else {
            Seq::empty()
        },
        _ => Seq::empty(),
    }
}

/// The names of the bindings of the block whose values are strings, in order.
pub open spec fn string_bindings(g: Typing, s: Seq<Statement>) -> Seq<Seq<char>>
    decreases s.len(),
{
    if s.len() == 0 {
        Seq::empty()
    } else {
        string_bindings(g, s.drop_last()) + string_binding_of(typing_after(g, s.drop_last()), s.last())
    }
}

/// The lines that release the string bindings, the last one first.
pub open spec fn release_lines(names: Seq<Seq<char>>) -> Seq<Seq<char>> {
    Seq::new(names.len(), |i: int| "    vio_str_release("@ + names[names.len() - 1 - i] + ");"@)
}

/// The C text of a block of plain statements: the lines of its statements,
/// indented, then the release of its string bindings, joined by newlines.
pub open spec fn c_block(g: Typing, externs: Set<Seq<char>>, s: Seq<Statement>) -> Result<Seq<char>, CgErr> {
    match c_block_lines(g, externs, s) {
        Ok(ls) => Ok(joined(ls + release_lines(string_bindings(g, s)), "\n"@)),
        Err(m) => Err(m),
    }
}

/// The typing with one more, empty, innermost scope.
pub open spec fn with_scope(g: Typing) -> Typing {
    Typing { scopes: g.scopes.push(Map::empty()), ..g }
}

/// The typing after the blocks of the `else if` branches, one after another.
pub open spec fn elifs_after(g: Typing, s: Seq<ElseIf>) -> Typing
    decreases s.len(),
{
    if s.len() == 0 {
        g
    } else {
        typing_after(elifs_after(g, s.drop_last()), s.last().block@)
    }
}

/// Each `else if` branch has a plain condition and a plain block where it
/// stands.
pub open spec fn plain_elifs(g: Typing, s: Seq<ElseIf>) -> bool
    decreases s.len(),
{
    if s.len() == 0 {
        true
    } else {
        let t = elifs_after(g, s.drop_last());
        plain_elifs(g, s.drop_last()) && plain_expr(s.last().condition) && expr_no_extern(s.last().condition)
            && plain_block(t, s.last().block@)
    }
}

/// The C text of the `else if` branches, or the first error met.
pub open spec fn elifs_text(g: Typing, externs: Set<Seq<char>>, s: Seq<ElseIf>) -> Result<Seq<char>, CgErr>
    decreases s.len(),
{
    if s.len() == 0 {
        Ok(Seq::empty())
    } else {
        let t = elifs_after(g, s.drop_last());
        match elifs_text(g, externs, s.drop_last()) {
            Ok(pre) => match c_expr(t, externs, s.last().condition) {
                Ok(c) => match c_block(t, externs, s.last().block@) {
                    Ok(b) => Ok(pre + "else if ("@ + c + ") {\n"@ + b + "\n}\n"@),
                    Err(m) => Err(m),
                },
                Err(m) => Err(m),
            },
            Err(m) => Err(m),
        }
    }
}

/// The `if` statement has plain conditions and plain blocks, each where it
/// stands: all of it in a scope of its own, the bindings of a block seen by
/// the branches after it.
pub open spec fn plain_if(g: Typing, i: IfStatement) -> bool {
    let g1 = with_scope(g);
    let t = typing_after(g1, i.then_block@);
    &&& plain_expr(i.condition)
    &&& expr_no_extern(i.condition)
    &&& plain_block(g1, i.then_block@)
    &&& plain_elifs(t, i.else_if@)
    &&& plain_block(elifs_after(t, i.else_if@), i.else_block@)
}

/// The C text of a plain `if` statement, or the first error met.
pub open spec fn if_text(g: Typing, externs: Set<Seq<char>>, i: IfStatement) -> Result<Seq<char>, CgErr> {
    let g1 = with_scope(g);
    let t = typing_after(g1, i.then_block@);
    let t2 = elifs_after(t, i.else_if@);
    match c_expr(g1, externs, i.condition) {
        Ok(c) => match c_block(g1, externs, i.then_block@) {
            Ok(b) => match elifs_text(t, externs, i.else_if@) {
                Ok(e) => if i.else_block@.len() > 0 {
                    match c_block(t2, externs, i.else_block@) {
                        Ok(eb) => Ok("if ("@ + c + ") {\n"@ + b + "\n}\n"@ + e + "else {\n"@ + eb + "\n}\n"@),
                        Err(m) => Err(m),
                    }
                } else {
                    Ok("if ("@ + c + ") {\n"@ + b + "\n}\n"@ + e)
                },
                Err(m) => Err(m),
            },
            Err(m) => Err(m),
        },
        Err(m) => Err(m),
    }
}

/// The loop has plain parts, each where it stands: all of it in a scope of
/// its own; a counted loop's first statement, or a range loop's variable,
/// bound there.
pub open spec fn plain_loop(g: Typing, st: Statement) -> bool {
    let g1 = with_scope(g);
    match st {
        Statement::While { condition, body, .. } => plain_expr(condition) && expr_no_extern(condition) && plain_block(
            g1,
            body@,
        ),
        Statement::ForCounter { init, condition, post, body, .. } => {
            let g2 = after_stmt(g1, *init);
            &&& plain_stmt(g1, *init)
            &&& plain_expr(condition)
            &&& expr_no_extern(condition)
            &&& plain_expr(post)
            &&& expr_no_extern(post)
            &&& plain_block(g2, body@)
        },
        Statement::ForRange { variable, iterable, body, span } => plain_range(iterable) && plain_block(
            range_var_typing(g1, variable@, span),
            body@,
        ),
        _ => false,
    }
}

/// The start and end texts of a loop's range (`0` when it has no start)
/// and its comparison, or the first error met.
pub open spec fn range_bounds(g: Typing, externs: Set<Seq<char>>, iterable: Expression) -> Result<
    (Seq<char>, Seq<char>, Seq<char>),
    CgErr,
> {
    match iterable {
        Expression::Range { start, end, range_kind, .. } => {
            let st_text = match start {
                Some(s) => c_expr(g, externs, *s),
                None => Ok("0"@),
            };
            match st_text {
                Ok(a) => match end {
                    Some(x) => match c_expr(g, externs, *x) {
                        Ok(z) => Ok(
                            (
                                a,
                                z,
                                if range_kind is Inclusive {
                                    "<="@
                                } else {
                                    "<"@
                                },
                            ),
                        ),
                        Err(m) => Err(m),
                    },
                    None => Err(CgErr::Unsupported("Open ranges"@)),
                },
                Err(m) => Err(m),
            }
        },
        _ => Err(CgErr::Unsupported("For-loop expects a range"@)),
    }
}

/// The range's bounds are plain.
pub open spec fn plain_range(iterable: Expression) -> bool {
    match iterable {
        Expression::Range { start, end, .. } => (match start {
            Some(s) => plain_expr(*s) && expr_no_extern(*s),
            None => true,
        }) && (match end {
            Some(x) => plain_expr(*x) && expr_no_extern(*x),
            None => true,
        }),
        _ => true,
    }
}

/// The typing in the body of a range loop: the variable bound, as an `int`.
pub open spec fn range_var_typing(g: Typing, variable: Seq<char>, span: crate::lexer::span::Span) -> Typing {
    Typing {
        scopes: bound(g.scopes, variable, EntityView { ty: TyView::Int, kind: BindingKind::Var, span }),
        ..g
    }
}

/// The C text of a plain loop, or the first error met.
pub open spec fn loop_text(g: Typing, externs: Set<Seq<char>>, st: Statement) -> Result<Seq<char>, CgErr> {
    let g1 = with_scope(g);
    match st {
        Statement::While { condition, body, .. } => match c_expr(g1, externs, condition) {
            Ok(c) => match c_block(g1, externs, body@) {
                Ok(b) => Ok("while ("@ + c + ") {\n"@ + b + "\n}"@),
                Err(m) => Err(m),
            },
            Err(m) => Err(m),
        },
        Statement::ForCounter { init, condition, post, body, .. } => {
            let g2 = after_stmt(g1, *init);
            match c_stmt(g1, externs, *init) {
                Ok(i) => match c_expr(g2, externs, condition) {
                    Ok(c) => match c_expr(g2, externs, post) {
                        Ok(p) => match c_block(g2, externs, body@) {
                            Ok(b) => Ok("for ("@ + i + " "@ + c + "; "@ + p + ") {\n"@ + b + "\n}"@),
                            Err(m) => Err(m),
                        },
                        Err(m) => Err(m),
                    },
                    Err(m) => Err(m),
                },
                Err(m) => Err(m),
            }
        },
        Statement::ForRange { variable, iterable, body, span } => match range_bounds(g1, externs, iterable) {
            Ok((a, z, cmp)) => match c_block(range_var_typing(g1, variable@, span), externs, body@) {
                Ok(b) => Ok("for (int64_t "@ + variable@ + " = "@ + a + "; "@ + variable@ + " "@ + cmp + " "@ + z
                    + "; "@ + variable@ + "++) {\n"@ + b + "\n}"@),
                Err(m) => Err(m),
            },
            Err(m) => Err(m),
        },
        _ => Err(CgErr::Unexpected("not a loop"@)),
    }
}

/// The C texts of a list of expressions, or the first error met.
pub open spec fn c_exprs(g: Typing, externs: Set<Seq<char>>, s: Seq<Expression>) -> Result<Seq<Seq<char>>, CgErr>
    decreases exprs_size(s), 1int,
{
    if s.len() == 0 {
        Ok(Seq::empty())
    } else {
        proof {
            assert(expr_size(s.last()) >= 1);
        }
        match c_exprs(g, externs, s.drop_last()) {
            Ok(parts) => match c_expr(g, externs, s.last()) {
                Ok(x) => Ok(parts.push(x)),
                Err(m) => Err(m),
            },
            Err(m) => Err(m),
        }
    }
}

/// The `name = value` texts of struct literal fields, or the first error met.
pub open spec fn c_fields(g: Typing, externs: Set<Seq<char>>, s: Seq<StructLiteralField>) -> Result<
    Seq<Seq<char>>,
    CgErr,
>
    decreases fields_size(s), 1int,
{
    if s.len() == 0 {
        Ok(Seq::empty())
    } else {
        proof {
            assert(expr_size(*s.last().field_val) >= 1);
        }
        match c_fields(g, externs, s.drop_last()) {
            Ok(parts) => match c_expr(g, externs, *s.last().field_val) {
                Ok(x) => Ok(parts.push(s.last().field_name@ + " = "@ + x)),
                Err(m) => Err(m),
            },
            Err(m) => Err(m),
        }
    }
}

} // verus!

verus! {

/// A list whose first `n` texts fail fails with the same error.
pub proof fn lemma_c_exprs_err(g: Typing, externs: Set<Seq<char>>, s: Seq<Expression>, n: int)
    requires
        0 <= n <= s.len(),
        c_exprs(g, externs, s.take(n)) is Err,
    ensures
        c_exprs(g, externs, s) == c_exprs(g, externs, s.take(n)),
    decreases s.len(),
{
    if n < s.len() {
        assert(s.drop_last().take(n) == s.take(n));
        lemma_c_exprs_err(g, externs, s.drop_last(), n);
    } else {
        assert(s.take(n) == s);
    }
}

/// A list of fields whose first `n` texts fail fails with the same error.
pub proof fn lemma_c_fields_err(g: Typing, externs: Set<Seq<char>>, s: Seq<StructLiteralField>, n: int)
    requires
        0 <= n <= s.len(),
        c_fields(g, externs, s.take(n)) is Err,
    ensures
        c_fields(g, externs, s) == c_fields(g, externs, s.take(n)),
    decreases s.len(),
{
    if n < s.len() {
        assert(s.drop_last().take(n) == s.take(n));
        lemma_c_fields_err(g, externs, s.drop_last(), n);
    } else {
        assert(s.take(n) == s);
    }
}

pub proof fn lemma_plain_exprs(s: Seq<Expression>)
    ensures
        plain_exprs(s) <==> forall|i: int| 0 <= i < s.len() ==> plain_expr(#[trigger] s[i]),
    decreases s.len(),
{
    if s.len() > 0 {
        lemma_plain_exprs(s.drop_last());
        assert(forall|i: int| 0 <= i < s.len() - 1 ==> s.drop_last()[i] == s[i]);
    }
}

pub proof fn lemma_plain_fields(s: Seq<StructLiteralField>)
    ensures
        plain_fields(s) <==> forall|i: int| 0 <= i < s.len() ==> plain_expr(*(#[trigger] s[i]).field_val),
    decreases s.len(),
{
    if s.len() > 0 {
        lemma_plain_fields(s.drop_last());
        assert(forall|i: int| 0 <= i < s.len() - 1 ==> s.drop_last()[i] == s[i]);
    }
}

} // verus!

verus! {

/// A block whose first `n` statements fail fails with the same error.
pub proof fn lemma_c_block_lines_err(g: Typing, externs: Set<Seq<char>>, s: Seq<Statement>, n: int)
    requires
        0 <= n <= s.len(),
        c_block_lines(g, externs, s.take(n)) is Err,
    ensures
        c_block_lines(g, externs, s) == c_block_lines(g, externs, s.take(n)),
    decreases s.len(),
{
    if n < s.len() {
        assert(s.drop_last().take(n) == s.take(n));
        lemma_c_block_lines_err(g, externs, s.drop_last(), n);
    } else {
        assert(s.take(n) == s);
    }
}

/// An error in the first `else if` branches is the error of them all.
pub proof fn lemma_elifs_text_err(g: Typing, externs: Set<Seq<char>>, s: Seq<ElseIf>, n: int)
    requires
        0 <= n <= s.len(),
        elifs_text(g, externs, s.take(n)) is Err,
    ensures
        elifs_text(g, externs, s) == elifs_text(g, externs, s.take(n)),
    decreases s.len(),
{
    if n < s.len() {
        assert(s.drop_last().take(n) == s.take(n));
        lemma_elifs_text_err(g, externs, s.drop_last(), n);
    } else {
        assert(s.take(n) == s);
    }
}

/// One more `else if` branch: its text comes after the others', in the
/// typing their blocks leave.
pub proof fn lemma_elifs_step(
    g: Typing,
    externs: Set<Seq<char>>,
    s: Seq<ElseIf>,
    n: int,
    pre: Seq<char>,
    c: Seq<char>,
    b: Seq<char>,
)
    requires
        0 <= n < s.len(),
        elifs_text(g, externs, s.take(n)) == Ok::<Seq<char>, CgErr>(pre),
        c_expr(elifs_after(g, s.take(n)), externs, s[n].condition) == Ok::<Seq<char>, CgErr>(c),
        c_block(elifs_after(g, s.take(n)), externs, s[n].block@) == Ok::<Seq<char>, CgErr>(b),
    ensures
        elifs_text(g, externs, s.take(n + 1)) == Ok::<Seq<char>, CgErr>(
            pre + ("else if ("@ + c + ") {\n"@ + b + "\n}\n"@),
        ),
        elifs_after(g, s.take(n + 1)) == typing_after(elifs_after(g, s.take(n)), s[n].block@),
{
    assert(s.take(n + 1).drop_last() =~= s.take(n));
    assert(s.take(n + 1).last() == s[n]);
    assert(pre + "else if ("@ + c + ") {\n"@ + b + "\n}\n"@ =~= pre + ("else if ("@ + c + ") {\n"@ + b
        + "\n}\n"@));
}

/// An `else if` branch that fails: the branches up to it fail alike.
pub proof fn lemma_elifs_fail(g: Typing, externs: Set<Seq<char>>, s: Seq<ElseIf>, n: int, pre: Seq<char>)
    requires
        0 <= n < s.len(),
        elifs_text(g, externs, s.take(n)) == Ok::<Seq<char>, CgErr>(pre),
        c_expr(elifs_after(g, s.take(n)), externs, s[n].condition) is Err || (c_expr(
            elifs_after(g, s.take(n)),
            externs,
            s[n].condition,
        ) is Ok && c_block(elifs_after(g, s.take(n)), externs, s[n].block@) is Err),
    ensures
        elifs_text(g, externs, s) == match c_expr(elifs_after(g, s.take(n)), externs, s[n].condition) {
            Err(m) => Err(m),
            Ok(_) => c_block(elifs_after(g, s.take(n)), externs, s[n].block@),
        },
{
    assert(s.take(n + 1).drop_last() =~= s.take(n));
    assert(s.take(n + 1).last() == s[n]);
    lemma_elifs_text_err(g, externs, s, n + 1);
}

/// The first `else if` branches of plain ones are plain.
pub proof fn lemma_plain_elifs(g: Typing, s: Seq<ElseIf>, n: int)
    requires
        plain_elifs(g, s),
        0 <= n <= s.len(),
    ensures
        plain_elifs(g, s.take(n)),
    decreases s.len(),
{
    if n < s.len() {
        assert(s.drop_last().take(n) == s.take(n));
        lemma_plain_elifs(g, s.drop_last(), n);
    } else {
        assert(s.take(n) == s);
    }
}

/// In a plain block every statement is plain where it stands.
pub proof fn lemma_plain_block(g: Typing, s: Seq<Statement>, n: int)
    requires
        plain_block(g, s),
        0 <= n < s.len(),
    ensures
        plain_block(g, s.take(n + 1)),
        plain_stmt(typing_after(g, s.take(n)), s[n]),
    decreases s.len(),
{
    if n < s.len() - 1 {
        assert(s.drop_last().take(n + 1) == s.take(n + 1));
        assert(s.drop_last().take(n) == s.take(n));
        lemma_plain_block(g, s.drop_last(), n);
    } else {
        assert(s.take(n + 1) == s);
        assert(s.take(n) == s.drop_last());
    }
}

} // verus!
