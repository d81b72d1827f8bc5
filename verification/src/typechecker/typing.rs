//! The typing rules: the type the checker gives an expression, as a
//! function of the names in scope, the function table and the struct table.
use vstd::prelude::*;

use crate::parser::expression::{Expression, StructLiteralField};
use crate::parser::shape::{expr_size, exprs_size, fields_size, lemma_exprs_size};
use crate::parser::statement::{ElseIf, FuncParam, MatchArm, Statement};
use crate::parser::types::Type;
use crate::typechecker::checker::{infix_type, method_key, prefix_type, resolve_ty, FieldView, FnSigView};
use crate::typechecker::env::{lookup_in, EntityView};
use crate::typechecker::types::{Ty, TyView};

verus! {

/// What the typing of an expression reads: the scopes of names, innermost
/// last, the function table and the struct table.
pub struct Typing {
    pub scopes: Seq<Map<Seq<char>, EntityView>>,
    pub funcs: Map<Seq<char>, FnSigView>,
    pub structs: Map<Seq<char>, Seq<FieldView>>,
}

/// The view of the type a context expects, if it expects one.
pub open spec fn expected_view(t: Option<&Ty>) -> Option<TyView> {
    match t {
        Some(x) => Some(x@),
        None => None,
    }
}

/// The index of the first field named `name`.
pub open spec fn first_field(fields: Seq<FieldView>, name: Seq<char>) -> Option<int>
    decreases fields.len(),
{
    if fields.len() == 0 {
        None
    } else {
        match first_field(fields.drop_last(), name) {
            Some(i) => Some(i),
            None => if fields.last().name == name {
                Some(fields.len() - 1)
            } else {
                None
            },
        }
    }
}

/// The type of a lambda's parameter `p`, the `i`-th: its written type, or,
/// where none is written, the `i`-th parameter type of the function type the
/// context expects.
pub open spec fn lambda_param_ty(p: FuncParam, i: int, expected: Option<TyView>) -> TyView {
    let t = resolve_ty(p.param_type);
    if t is Infer {
        match expected {
            Some(TyView::Fn { params, .. }) => if i < params.len() {
                params[i]
            } else {
                TyView::Error
            },
            _ => TyView::Error,
        }
    } else {
        t
    }
}

/// The type of a lambda: its parameter types and its written result type,
/// else the result type of the function type the context expects, else
/// `void`.
pub open spec fn lambda_ty(params: Seq<FuncParam>, return_type: Option<Type>, expected: Option<TyView>) -> TyView {
    TyView::Fn {
        params: Seq::new(params.len(), |i: int| lambda_param_ty(params[i], i, expected)),
        ret: Box::new(
            match return_type {
                Some(t) => resolve_ty(t),
                None => match expected {
                    Some(TyView::Fn { ret, .. }) => *ret,
                    _ => TyView::Unit,
                },
            },
        ),
    }
}

/// The type of `function(args)`. A name that is not bound, called with a
/// first argument of a struct type that has a method of the name, calls the
/// method; otherwise the call has the result type of the callee's function
/// type.
pub open spec fn call_ty(g: Typing, function: Expression, args: Seq<Expression>, first_arg: TyView, callee: TyView) -> TyView {
    let method = match function {
        Expression::Identifier { name, .. } => if lookup_in(g.scopes, name@) is None && args.len() > 0 {
            match first_arg {
                TyView::Struct(s) => if g.funcs.contains_key(method_key(s, name@)) {
                    Some(g.funcs[method_key(s, name@)].ret)
                } else {
                    None
                },
                _ => None,
            }
        } else {
            None
        },
        _ => None,
    };
    match method {
        Some(t) => t,
        None => match callee {
            TyView::Fn { ret, .. } => *ret,
            _ => TyView::Error,
        },
    }
}

/// Whether `object.name(..)` names a struct's method statically (`S.m`) or
/// a global function through a name that is not bound, and the signature it
/// names.
pub open spec fn static_method(g: Typing, object: Expression, name: Seq<char>) -> (bool, Option<FnSigView>) {
    match object {
        Expression::Identifier { name: obj, .. } => if g.structs.contains_key(obj@) {
            (
                true,
                if g.funcs.contains_key(method_key(obj@, name)) {
                    Some(g.funcs[method_key(obj@, name)])
                } else {
                    None
                },
            )
        } else if lookup_in(g.scopes, obj@) is None && g.funcs.contains_key(name) {
            (true, Some(g.funcs[name]))
        } else {
            (false, None)
        },
        _ => (false, None),
    }
}

/// The signature a method `name` called on a value of type `object_ty`
/// names: the struct's method `S.name`, or the function `name` for a
/// primitive value; else a function `name` whose first parameter has the
/// value's type, which is a method of that type.
pub open spec fn value_method_sig(g: Typing, object_ty: TyView, name: Seq<char>) -> Option<FnSigView> {
    let key = match object_ty {
        TyView::Struct(s) => Some(method_key(s, name)),
        TyView::String | TyView::Int | TyView::Float | TyView::Bool => Some(name),
        _ => None,
    };
    match key {
        Some(k) => if g.funcs.contains_key(k) {
            Some(g.funcs[k])
        } else if g.funcs.contains_key(name) && g.funcs[name].params.len() > 0 && g.funcs[name].params[0]
            == object_ty {
            Some(g.funcs[name])
        } else {
            None
        },
        None => None,
    }
}

/// The type of `object.name(args)`, where `object_ty` is the type of the
/// object: the result type of the method the call names, or an error.
pub open spec fn method_call_ty(g: Typing, object: Expression, name: Seq<char>, object_ty: TyView) -> TyView {
    let (is_static, static_sig) = static_method(g, object, name);
    if is_static {
        match static_sig {
            Some(sig) => sig.ret,
            None => TyView::Error,
        }
    } else {
        match value_method_sig(g, object_ty, name) {
            Some(sig) => if sig.params.len() > 0 {
                sig.ret
            } else {
                TyView::Error
            },
            None => TyView::Error,
        }
    }
}

/// The type of `object.name`, where `object_ty` is the type of the object:
/// the declared type of the struct's first field of the name.
pub open spec fn field_ty(g: Typing, object_ty: TyView, name: Seq<char>) -> TyView {
    match object_ty {
        TyView::Struct(s) => if g.structs.contains_key(s) {
            match first_field(g.structs[s], name) {
                Some(i) => g.structs[s][i].ty,
                None => TyView::Error,
            }
        } else {
            TyView::Error
        },
        _ => TyView::Error,
    }
}

/// The type the checker gives `e`, where the context expects `expected`.
pub open spec fn ty_of(g: Typing, e: Expression, expected: Option<TyView>) -> TyView
    decreases expr_size(e), 0int,
{
    match e {
        Expression::IntLiteral { .. } => TyView::Int,
        Expression::BoolLiteral { .. } => TyView::Bool,
        Expression::StringLiteral { .. } => TyView::String,
        Expression::FloatLiteral { .. } => TyView::Float,
        Expression::Identifier { name, .. } => match lookup_in(g.scopes, name@) {
            Some(entity) => entity.ty,
            None => TyView::Error,
        },
        Expression::Infix { left, operator, right, .. } => infix_type(
            operator,
            ty_of(g, *left, None),
            ty_of(g, *right, None),
        ),
        Expression::Prefix { operator, right, .. } => prefix_type(operator, ty_of(g, *right, None)),
        Expression::Range { .. } => TyView::Generic { name: "Range"@, param: Box::new(TyView::Int) },
        Expression::Index { left, .. } => if ty_of(g, *left, None) is String {
            TyView::Int
        } else {
            TyView::Error
        },
        Expression::Call { function, args, .. } => {
            proof {
                lemma_exprs_size(args@);
            }
            let first_arg = if args@.len() > 0 {
                ty_of(g, args@[0], None)
            } else {
                TyView::Error
            };
            call_ty(g, *function, args@, first_arg, ty_of(g, *function, None))
        },
        Expression::Lambda { params, return_type, .. } => lambda_ty(params@, return_type, expected),
        Expression::StructLiteral { name, fields, .. } => if g.structs.contains_key(name@) && !fields_err(
            g,
            fields@,
        ) {
            TyView::Struct(name@)
        } else {
            TyView::Error
        },
        Expression::Field { object, name, .. } => field_ty(g, ty_of(g, *object, None), name@),
        Expression::MethodCall { object, name, .. } => method_call_ty(g, *object, name@, ty_of(g, *object, None)),
        _ => TyView::Error,
    }
}

/// Whether the value of some field has the error type.
pub open spec fn fields_err(g: Typing, fields: Seq<StructLiteralField>) -> bool
    decreases fields_size(fields), 1int,
{
    if fields.len() == 0 {
        false
    } else {
        proof {
            assert(expr_size(*fields.last().field_val) >= 1);
            assert(fields_size(fields) == fields_size(fields.drop_last()) + expr_size(*fields.last().field_val));
        }
        fields_err(g, fields.drop_last()) || ty_of(g, *fields.last().field_val, None) is Error
    }
}

/// The first field of a name is the one before which no field has it.
pub proof fn lemma_first_field(fields: Seq<FieldView>, name: Seq<char>)
    ensures
        match first_field(fields, name) {
            Some(i) => 0 <= i < fields.len() && fields[i].name == name && forall|k: int|
                0 <= k < i ==> fields[k].name != name,
            None => forall|k: int| 0 <= k < fields.len() ==> fields[k].name != name,
        },
    decreases fields.len(),
{
    if fields.len() > 0 {
        lemma_first_field(fields.drop_last(), name);
        assert(forall|k: int| 0 <= k < fields.len() - 1 ==> fields.drop_last()[k] == fields[k]);
    }
}

/// Some field value has the error type exactly when one of them has.
pub proof fn lemma_fields_err(g: Typing, fields: Seq<StructLiteralField>)
    ensures
        fields_err(g, fields) <==> exists|i: int| 0 <= i < fields.len() && (ty_of(
            g,
            *(#[trigger] fields[i]).field_val,
            None,
        ) is Error),
    decreases fields.len(),
{
    if fields.len() > 0 {
        let t = fields.drop_last();
        lemma_fields_err(g, t);
        assert(forall|k: int| 0 <= k < t.len() ==> t[k] == fields[k]);
        if fields_err(g, t) {
            let i = choose|i: int| 0 <= i < t.len() && (ty_of(g, *(#[trigger] t[i]).field_val, None) is Error);
            assert(fields[i] == t[i]);
        }
        if exists|i: int| 0 <= i < fields.len() && (ty_of(g, *(#[trigger] fields[i]).field_val, None) is Error) {
            let i = choose|i: int| 0 <= i < fields.len() && (ty_of(g, *(#[trigger] fields[i]).field_val, None) is Error);
            if i < t.len() {
                assert(t[i] == fields[i]);
            }
        }
    }
}

/// Uniform function call syntax on primitive values: for a value `o` of
/// type int, float, bool or string, `o.m(args)` has the type that the call
/// `m(o, args)` of the global function `m` has, the result type of `m`,
/// when `m` takes a parameter and `o` does not name a struct or an unbound
/// name through which `m` would be called statically.
pub proof fn law_method_call_on_primitive(
    g: Typing,
    o: Expression,
    f: Expression,
    m: Seq<char>,
    args: Seq<Expression>,
    entity: EntityView,
)
    requires
        ty_of(g, o, None) is Int || ty_of(g, o, None) is Float || ty_of(g, o, None) is Bool || ty_of(g, o, None) is String,
        !static_method(g, o, m).0,
        g.funcs.contains_key(m),
        g.funcs[m].params.len() > 0,
        f matches Expression::Identifier { name, .. } && name@ == m,
        lookup_in(g.scopes, m) == Some(entity),
        entity.ty == (TyView::Fn { params: g.funcs[m].params, ret: Box::new(g.funcs[m].ret) }),
    ensures
        method_call_ty(g, o, m, ty_of(g, o, None)) == g.funcs[m].ret,
        call_ty(g, f, seq![o] + args, ty_of(g, o, None), ty_of(g, f, None)) == g.funcs[m].ret,
{
}

/// No extern function is declared anywhere in the expression.
pub open spec fn expr_no_extern(e: Expression) -> bool
    decreases e,
{
    match e {
        Expression::StructLiteral { fields, .. } => fields_no_extern(fields@),
        Expression::Prefix { right, .. } => expr_no_extern(*right),
        Expression::Infix { left, right, .. } => expr_no_extern(*left) && expr_no_extern(*right),
        Expression::Postfix { left, .. } => expr_no_extern(*left),
        Expression::Index { left, index, .. } => expr_no_extern(*left) && expr_no_extern(*index),
        Expression::Call { function, args, .. } => expr_no_extern(*function) && exprs_no_extern(args@),
        Expression::Block { body, .. } => stmts_no_extern(body@),
        Expression::Match { target, arms, .. } => expr_no_extern(*target) && arms_no_extern(arms@),
        Expression::Field { object, .. } => expr_no_extern(*object),
        Expression::MethodCall { object, args, .. } => expr_no_extern(*object) && exprs_no_extern(args@),
        Expression::Lambda { body, .. } => stmts_no_extern(body@),
        Expression::Range { start, end, .. } => (match start {
            Some(s) => expr_no_extern(*s),
            None => true,
        }) && (match end {
            Some(x) => expr_no_extern(*x),
            None => true,
        }),
        _ => true,
    }
}

pub open spec fn exprs_no_extern(s: Seq<Expression>) -> bool
    decreases s,
{
    if s.len() == 0 {
        true
    } else {
        exprs_no_extern(s.drop_last()) && expr_no_extern(s.last())
    }
}

pub open spec fn fields_no_extern(s: Seq<StructLiteralField>) -> bool
    decreases s,
{
    if s.len() == 0 {
        true
    } else {
        fields_no_extern(s.drop_last()) && expr_no_extern(*s.last().field_val)
    }
}

pub open spec fn arms_no_extern(s: Seq<MatchArm>) -> bool
    decreases s,
{
    if s.len() == 0 {
        true
    } else {
        arms_no_extern(s.drop_last()) && expr_no_extern(s.last().pattern) && expr_no_extern(s.last().body)
    }
}

/// No extern function is declared anywhere in the statement.
pub open spec fn stmt_no_extern(st: Statement) -> bool
    decreases st,
{
    match st {
        Statement::Expression { expression, .. } => expr_no_extern(expression),
        Statement::Var { value, .. } => expr_no_extern(value),
        Statement::Let { value, .. } => expr_no_extern(value),
        Statement::Const { value, .. } => expr_no_extern(value),
        Statement::If(i) => expr_no_extern(i.condition) && stmts_no_extern(i.then_block@) && else_ifs_no_extern(
            i.else_if@,
        ) && stmts_no_extern(i.else_block@),
        Statement::While { condition, body, .. } => expr_no_extern(condition) && stmts_no_extern(body@),
        Statement::ForRange { iterable, body, .. } => expr_no_extern(iterable) && stmts_no_extern(body@),
        Statement::ForCounter { init, condition, post, body, .. } => stmt_no_extern(*init) && expr_no_extern(
            condition,
        ) && expr_no_extern(post) && stmts_no_extern(body@),
        Statement::Return { value, .. } => match value {
            Some(v) => expr_no_extern(v),
            None => true,
        },
        Statement::ExternFunc { .. } => false,
        Statement::Func { body, .. } => stmts_no_extern(body@),
        Statement::Extend { methods, .. } => stmts_no_extern(methods@),
        _ => true,
    }
}

pub open spec fn stmts_no_extern(s: Seq<Statement>) -> bool
    decreases s,
{
    if s.len() == 0 {
        true
    } else {
        stmts_no_extern(s.drop_last()) && stmt_no_extern(s.last())
    }
}

pub open spec fn else_ifs_no_extern(s: Seq<ElseIf>) -> bool
    decreases s,
{
    if s.len() == 0 {
        true
    } else {
        else_ifs_no_extern(s.drop_last()) && expr_no_extern(s.last().condition) && stmts_no_extern(s.last().block@)
    }
}

pub proof fn lemma_exprs_no_extern(s: Seq<Expression>)
    ensures
        exprs_no_extern(s) <==> forall|i: int| 0 <= i < s.len() ==> expr_no_extern(#[trigger] s[i]),
    decreases s.len(),
{
    if s.len() > 0 {
        lemma_exprs_no_extern(s.drop_last());
        assert(forall|i: int| 0 <= i < s.len() - 1 ==> s.drop_last()[i] == s[i]);
    }
}

pub proof fn lemma_fields_no_extern(s: Seq<StructLiteralField>)
    ensures
        fields_no_extern(s) <==> forall|i: int| 0 <= i < s.len() ==> expr_no_extern(*(#[trigger] s[i]).field_val),
    decreases s.len(),
{
    if s.len() > 0 {
        lemma_fields_no_extern(s.drop_last());
        assert(forall|i: int| 0 <= i < s.len() - 1 ==> s.drop_last()[i] == s[i]);
    }
}

pub proof fn lemma_stmts_no_extern(s: Seq<Statement>)
    ensures
        stmts_no_extern(s) <==> forall|i: int| 0 <= i < s.len() ==> stmt_no_extern(#[trigger] s[i]),
    decreases s.len(),
{
    if s.len() > 0 {
        lemma_stmts_no_extern(s.drop_last());
        assert(forall|i: int| 0 <= i < s.len() - 1 ==> s.drop_last()[i] == s[i]);
    }
}

pub proof fn lemma_else_ifs_no_extern(s: Seq<ElseIf>)
    ensures
        else_ifs_no_extern(s) <==> forall|i: int| 0 <= i < s.len() ==> expr_no_extern((#[trigger] s[i]).condition)
            && stmts_no_extern(s[i].block@),
    decreases s.len(),
{
    if s.len() > 0 {
        lemma_else_ifs_no_extern(s.drop_last());
        assert(forall|i: int| 0 <= i < s.len() - 1 ==> s.drop_last()[i] == s[i]);
    }
}

} // verus!
