//! Executable tests of the tree shapes of `shape`: a caller that holds a
//! tree from elsewhere asks these before it hands the tree to the type
//! checker or the code generator.
use vstd::prelude::*;

use crate::parser::expression::{Expression, StructLiteralField};
use crate::parser::program::Program;
use crate::parser::shape::{
    arms_cg, arms_size, arms_wf, else_ifs_cg, else_ifs_size, else_ifs_wf, expr_cg, expr_size, expr_wf, exprs_cg,
    exprs_size, exprs_wf, fields_cg, fields_size, fields_wf, lemma_arms_cg, lemma_arms_size, lemma_arms_wf,
    lemma_else_ifs_cg, lemma_else_ifs_size, lemma_else_ifs_wf, lemma_exprs_cg, lemma_exprs_size, lemma_exprs_wf,
    lemma_fields_cg, lemma_fields_size, lemma_fields_wf, lemma_params_wf, lemma_stmts_cg, lemma_stmts_size,
    lemma_stmts_wf, lemma_types_wf, params_wf, pattern_shape_ok, stmt_cg, stmt_size, stmt_wf, stmts_cg, stmts_size,
    stmts_wf, type_wf, types_wf,
};
use crate::parser::statement::{ElseIf, FuncParam, MatchArm, Statement};
use crate::parser::types::Type;

verus! {

/// Whether every named type path inside `t` has a segment.
pub fn type_is_wf(t: &Type) -> (r: bool)
    ensures
        r == type_wf(*t),
    decreases t,
{
    match t {
        Type::Named(p) => p.segments.len() > 0,
        Type::Fn { params, ret } => {
            let a = types_are_wf(params);
            let b = match ret {
                Some(rt) => type_is_wf(rt),
                None => true,
            };
            a && b
        },
        Type::Generic { param, .. } => type_is_wf(param),
        Type::Union(v) => types_are_wf(v),
        _ => true,
    }
}

/// Whether each of the types is well formed.
pub fn types_are_wf(ts: &Vec<Type>) -> (r: bool)
    ensures
        r == types_wf(ts@),
    decreases ts,
{
    proof {
        lemma_types_wf(ts@);
    }
    let mut i: usize = 0;
    while i < ts.len()
        invariant
            i <= ts.len(),
            forall|k: int| 0 <= k < i ==> type_wf(#[trigger] ts@[k]),
        decreases ts.len() - i,
    {
        proof {
            assert(decreases_to!(ts => ts[i as int]));
        }
        if !type_is_wf(&ts[i]) {
            proof {
                lemma_types_wf(ts@);
            }
            return false;
        }
        i = i + 1;
    }
    true
}

/// Whether the type of each parameter is well formed.
pub fn params_are_wf(ps: &Vec<FuncParam>) -> (r: bool)
    ensures
        r == params_wf(ps@),
{
    proof {
        lemma_params_wf(ps@);
    }
    let mut i: usize = 0;
    while i < ps.len()
        invariant
            i <= ps.len(),
            forall|k: int| 0 <= k < i ==> type_wf(#[trigger] ps@[k].param_type),
        decreases ps.len() - i,
    {
        if !type_is_wf(&ps[i].param_type) {
            assert(!type_wf(ps@[i as int].param_type));
            proof {
                lemma_params_wf(ps@);
            }
            return false;
        }
        i = i + 1;
    }
    true
}

/// Whether the optional type is absent or well formed.
fn opt_type_is_wf(t: &Option<Type>) -> (r: bool)
    ensures
        r == (match *t {
            Some(x) => type_wf(x),
            None => true,
        }),
{
    match t {
        Some(x) => type_is_wf(x),
        None => true,
    }
}

/// Whether `e` has the shape the type checker needs (first) and the shape
/// the code generator needs (second).
pub fn expr_shape(e: &Expression) -> (r: (bool, bool))
    ensures
        r.0 == expr_wf(*e),
        r.1 == expr_cg(*e),
    decreases expr_size(*e), 0int,
{
    match e {
        Expression::StructLiteral { fields, .. } => fields_shape(fields),
        Expression::Prefix { right, .. } => expr_shape(right),
        Expression::Infix { left, right, .. } => both(expr_shape(left), expr_shape(right)),
        Expression::Postfix { left, .. } => expr_shape(left),
        Expression::Index { left, index, .. } => both(expr_shape(left), expr_shape(index)),
        Expression::Call { function, args, .. } => both(expr_shape(function), exprs_shape(args)),
        Expression::Block { body, .. } => stmts_shape(body),
        Expression::Match { target, arms, .. } => both(expr_shape(target), arms_shape(arms)),
        Expression::Field { object, .. } => expr_shape(object),
        Expression::MethodCall { object, args, .. } => both(expr_shape(object), exprs_shape(args)),
        Expression::Lambda { params, return_type, body, .. } => {
            let a = params_are_wf(params);
            let b = opt_type_is_wf(return_type);
            let c = stmts_shape(body);
            (a && b && c.0, c.1)
        },
        Expression::Range { start, end, .. } => {
            let a = match start {
                Some(s) => expr_shape(s),
                None => (true, true),
            };
            let b = match end {
                Some(x) => expr_shape(x),
                None => (true, true),
            };
            both(a, b)
        },
        _ => (true, true),
    }
}

/// Both parts hold of both pairs.
fn both(a: (bool, bool), b: (bool, bool)) -> (r: (bool, bool))
    ensures
        r.0 == (a.0 && b.0),
        r.1 == (a.1 && b.1),
{
    (a.0 && b.0, a.1 && b.1)
}

/// The shapes of a list of expressions: whether each has the checker's
/// shape, and whether each has the code generator's.
pub fn exprs_shape(v: &Vec<Expression>) -> (r: (bool, bool))
    ensures
        r.0 == exprs_wf(v@),
        r.1 == exprs_cg(v@),
    decreases exprs_size(v@), 1int,
{
    proof {
        lemma_exprs_wf(v@);
        lemma_exprs_cg(v@);
        lemma_exprs_size(v@);
    }
    let mut w = true;
    let mut c = true;
    let mut i: usize = 0;
    while i < v.len()
        invariant
            i <= v.len(),
            forall|k: int| 0 <= k < v.len() ==> expr_size(#[trigger] v@[k]) <= exprs_size(v@),
            w == forall|k: int| 0 <= k < i ==> expr_wf(#[trigger] v@[k]),
            c == forall|k: int| 0 <= k < i ==> expr_cg(#[trigger] v@[k]),
        decreases v.len() - i,
    {
        let x = expr_shape(&v[i]);
        w = w && x.0;
        c = c && x.1;
        i = i + 1;
    }
    (w, c)
}

/// The shapes of the values of struct literal fields.
pub fn fields_shape(v: &Vec<StructLiteralField>) -> (r: (bool, bool))
    ensures
        r.0 == fields_wf(v@),
        r.1 == fields_cg(v@),
    decreases fields_size(v@), 1int,
{
    proof {
        lemma_fields_wf(v@);
        lemma_fields_cg(v@);
        lemma_fields_size(v@);
    }
    let mut w = true;
    let mut c = true;
    let mut i: usize = 0;
    while i < v.len()
        invariant
            i <= v.len(),
            forall|k: int| 0 <= k < v.len() ==> expr_size(*(#[trigger] v@[k]).field_val) <= fields_size(v@),
            w == forall|k: int| 0 <= k < i ==> expr_wf(*(#[trigger] v@[k]).field_val),
            c == forall|k: int| 0 <= k < i ==> expr_cg(*(#[trigger] v@[k]).field_val),
        decreases v.len() - i,
    {
        let x = expr_shape(&v[i].field_val);
        w = w && x.0;
        c = c && x.1;
        i = i + 1;
    }
    (w, c)
}

/// The shapes of `match` arms; the code generator's shape also asks that
/// each pattern be one it lowers.
pub fn arms_shape(v: &Vec<MatchArm>) -> (r: (bool, bool))
    ensures
        r.0 == arms_wf(v@),
        r.1 == arms_cg(v@),
    decreases arms_size(v@), 1int,
{
    proof {
        lemma_arms_wf(v@);
        lemma_arms_cg(v@);
        lemma_arms_size(v@);
    }
    let mut w = true;
    let mut c = true;
    let mut i: usize = 0;
    while i < v.len()
        invariant
            i <= v.len(),
            forall|k: int| 0 <= k < v.len() ==> expr_size((#[trigger] v@[k]).pattern) + expr_size(v@[k].body)
                <= arms_size(v@),
            w == forall|k: int| 0 <= k < i ==> expr_wf((#[trigger] v@[k]).pattern) && expr_wf(v@[k].body),
            c == forall|k: int| 0 <= k < i ==> pattern_shape_ok((#[trigger] v@[k]).pattern) && expr_cg(v@[k].pattern)
                && expr_cg(v@[k].body),
        decreases v.len() - i,
    {
        let arm = &v[i];
        let shape = pattern_fits(&arm.pattern);
        let p = expr_shape(&arm.pattern);
        let b = expr_shape(&arm.body);
        w = w && p.0 && b.0;
        c = c && shape && p.1 && b.1;
        i = i + 1;
    }
    (w, c)
}

/// Whether a `match` pattern is a name, a field, or a call whose first
/// argument is a name (of a function given by name).
fn pattern_fits(p: &Expression) -> (r: bool)
    ensures
        r == pattern_shape_ok(*p),
{
    match p {
        Expression::Call { function, args, .. } => {
            let f = match &**function {
                Expression::Identifier { .. } => true,
                _ => false,
            };
            f && args.len() > 0 && match &args[0] {
                Expression::Identifier { .. } => true,
                _ => false,
            }
        },
        Expression::MethodCall { args, .. } => args.len() > 0 && match &args[0] {
            Expression::Identifier { .. } => true,
            _ => false,
        },
        _ => true,
    }
}

/// The shapes of the branches of an `else if` chain.
pub fn else_ifs_shape(v: &Vec<ElseIf>) -> (r: (bool, bool))
    ensures
        r.0 == else_ifs_wf(v@),
        r.1 == else_ifs_cg(v@),
    decreases else_ifs_size(v@), 1int,
{
    proof {
        lemma_else_ifs_wf(v@);
        lemma_else_ifs_cg(v@);
        lemma_else_ifs_size(v@);
    }
    let mut w = true;
    let mut c = true;
    let mut i: usize = 0;
    while i < v.len()
        invariant
            i <= v.len(),
            forall|k: int| 0 <= k < v.len() ==> expr_size((#[trigger] v@[k]).condition) + stmts_size(v@[k].block@)
                <= else_ifs_size(v@),
            w == forall|k: int| 0 <= k < i ==> expr_wf((#[trigger] v@[k]).condition) && stmts_wf(v@[k].block@),
            c == forall|k: int| 0 <= k < i ==> expr_cg((#[trigger] v@[k]).condition) && stmts_cg(v@[k].block@),
        decreases v.len() - i,
    {
        let x = expr_shape(&v[i].condition);
        let y = stmts_shape(&v[i].block);
        w = w && x.0 && y.0;
        c = c && x.1 && y.1;
        i = i + 1;
    }
    (w, c)
}

/// Whether `st` has the shape the type checker needs (first) and the shape
/// the code generator needs (second).
pub fn stmt_shape(st: &Statement) -> (r: (bool, bool))
    ensures
        r.0 == stmt_wf(*st),
        r.1 == stmt_cg(*st),
    decreases stmt_size(*st), 0int,
{
    match st {
        Statement::Expression { expression, .. } => expr_shape(expression),
        Statement::Var { value, .. } => expr_shape(value),
        Statement::Let { value, .. } => expr_shape(value),
        Statement::Const { value, .. } => expr_shape(value),
        Statement::If(i) => {
            let a = expr_shape(&i.condition);
            let b = stmts_shape(&i.then_block);
            let c = else_ifs_shape(&i.else_if);
            let d = stmts_shape(&i.else_block);
            both(both(a, b), both(c, d))
        },
        Statement::While { condition, body, .. } => both(expr_shape(condition), stmts_shape(body)),
        Statement::ForRange { iterable, body, .. } => both(expr_shape(iterable), stmts_shape(body)),
        Statement::ForCounter { init, condition, post, body, .. } => {
            let a = stmt_shape(init);
            let b = expr_shape(condition);
            let c = expr_shape(post);
            let d = stmts_shape(body);
            both(both(a, b), both(c, d))
        },
        Statement::Return { value, .. } => match value {
            Some(v) => expr_shape(v),
            None => (true, true),
        },
        Statement::ExternFunc { params, return_type, .. } => {
            let a = params_are_wf(params);
            let b = opt_type_is_wf(return_type);
            (a && b, true)
        },
        Statement::Func { params, return_type, body, .. } => {
            let a = params_are_wf(params);
            let b = opt_type_is_wf(return_type);
            let c = stmts_shape(body);
            (a && b && c.0, c.1)
        },
        Statement::Struct { fields, .. } => (params_are_wf(fields), true),
        Statement::Extend { target, methods, .. } => {
            let a = type_is_wf(target);
            let b = stmts_shape(methods);
            (a && b.0, b.1)
        },
        _ => (true, true),
    }
}

/// The shapes of a list of statements.
pub fn stmts_shape(v: &Vec<Statement>) -> (r: (bool, bool))
    ensures
        r.0 == stmts_wf(v@),
        r.1 == stmts_cg(v@),
    decreases stmts_size(v@), 1int,
{
    proof {
        lemma_stmts_wf(v@);
        lemma_stmts_cg(v@);
        lemma_stmts_size(v@);
    }
    let mut w = true;
    let mut c = true;
    let mut i: usize = 0;
    while i < v.len()
        invariant
            i <= v.len(),
            forall|k: int| 0 <= k < v.len() ==> stmt_size(#[trigger] v@[k]) <= stmts_size(v@),
            w == forall|k: int| 0 <= k < i ==> stmt_wf(#[trigger] v@[k]),
            c == forall|k: int| 0 <= k < i ==> stmt_cg(#[trigger] v@[k]),
        decreases v.len() - i,
    {
        let x = stmt_shape(&v[i]);
        w = w && x.0;
        c = c && x.1;
        i = i + 1;
    }
    (w, c)
}

/// Whether the declarations and the top-level statements of a program have
/// the shape the type checker needs (first) and the shape the code
/// generator needs (second).
pub fn program_shape(p: &Program) -> (r: (bool, bool))
    ensures
        r.0 == (stmts_wf(p.declarations@) && stmts_wf(p.main@)),
        r.1 == (stmts_cg(p.declarations@) && stmts_cg(p.main@)),
{
    both(stmts_shape(&p.declarations), stmts_shape(&p.main))
}

} // verus!
