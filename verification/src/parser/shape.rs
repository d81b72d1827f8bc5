//! The shape every tree built by the parser has: each named type path holds
//! at least one segment. The type checker and the code generator rely on it.
use vstd::prelude::*;

use crate::parser::expression::{Expression, StructLiteralField};
use crate::parser::statement::{ElseIf, FuncParam, MatchArm, Statement};
use crate::parser::types::Type;

verus! {

pub open spec fn type_wf(t: Type) -> bool
    decreases t,
{
    match t {
        Type::Named(p) => p.segments@.len() > 0,
        Type::Fn { params, ret } => types_wf(params@) && (match ret {
            Some(r) => type_wf(*r),
            None => true,
        }),
        Type::Generic { param, .. } => type_wf(*param),
        Type::Union(v) => types_wf(v@),
        _ => true,
    }
}

pub open spec fn types_wf(s: Seq<Type>) -> bool
    decreases s,
{
    if s.len() == 0 {
        true
    } else {
        types_wf(s.drop_last()) && type_wf(s.last())
    }
}

pub open spec fn opt_type_wf(t: Option<Type>) -> bool {
    match t {
        Some(t) => type_wf(t),
        None => true,
    }
}

pub open spec fn expr_wf(e: Expression) -> bool
    decreases e,
{
    match e {
        Expression::StructLiteral { fields, .. } => fields_wf(fields@),
        Expression::Prefix { right, .. } => expr_wf(*right),
        Expression::Infix { left, right, .. } => expr_wf(*left) && expr_wf(*right),
        Expression::Postfix { left, .. } => expr_wf(*left),
        Expression::Index { left, index, .. } => expr_wf(*left) && expr_wf(*index),
        Expression::Call { function, args, .. } => expr_wf(*function) && exprs_wf(args@),
        Expression::Block { body, .. } => stmts_wf(body@),
        Expression::Match { target, arms, .. } => expr_wf(*target) && arms_wf(arms@),
        Expression::Field { object, .. } => expr_wf(*object),
        Expression::MethodCall { object, args, .. } => expr_wf(*object) && exprs_wf(args@),
        Expression::Lambda { params, return_type, body, .. } => params_wf(params@) && (match return_type {
            Some(t) => type_wf(t),
            None => true,
        }) && stmts_wf(body@),
        Expression::Range { start, end, .. } => (match start {
            Some(s) => expr_wf(*s),
            None => true,
        }) && (match end {
            Some(x) => expr_wf(*x),
            None => true,
        }),
        _ => true,
    }
}

pub open spec fn exprs_wf(s: Seq<Expression>) -> bool
    decreases s,
{
    if s.len() == 0 {
        true
    } else {
        exprs_wf(s.drop_last()) && expr_wf(s.last())
    }
}

pub open spec fn fields_wf(s: Seq<StructLiteralField>) -> bool
    decreases s,
{
    if s.len() == 0 {
        true
    } else {
        fields_wf(s.drop_last()) && expr_wf(*s.last().field_val)
    }
}

pub open spec fn arms_wf(s: Seq<MatchArm>) -> bool
    decreases s,
{
    if s.len() == 0 {
        true
    } else {
        arms_wf(s.drop_last()) && expr_wf(s.last().pattern) && expr_wf(s.last().body)
    }
}

pub open spec fn params_wf(s: Seq<FuncParam>) -> bool
    decreases s,
{
    if s.len() == 0 {
        true
    } else {
        params_wf(s.drop_last()) && type_wf(s.last().param_type)
    }
}

pub open spec fn stmt_wf(st: Statement) -> bool
    decreases st,
{
    match st {
        Statement::Expression { expression, .. } => expr_wf(expression),
        Statement::Var { value, .. } => expr_wf(value),
        Statement::Let { value, .. } => expr_wf(value),
        Statement::Const { value, .. } => expr_wf(value),
        Statement::If(i) => expr_wf(i.condition) && stmts_wf(i.then_block@) && else_ifs_wf(i.else_if@) && stmts_wf(
            i.else_block@,
        ),
        Statement::While { condition, body, .. } => expr_wf(condition) && stmts_wf(body@),
        Statement::ForRange { iterable, body, .. } => expr_wf(iterable) && stmts_wf(body@),
        Statement::ForCounter { init, condition, post, body, .. } => stmt_wf(*init) && expr_wf(condition) && expr_wf(
            post,
        ) && stmts_wf(body@),
        Statement::Return { value, .. } => match value {
            Some(v) => expr_wf(v),
            None => true,
        },
        Statement::ExternFunc { params, return_type, .. } => params_wf(params@) && (match return_type {
            Some(t) => type_wf(t),
            None => true,
        }),
        Statement::Func { params, return_type, body, .. } => params_wf(params@) && (match return_type {
            Some(t) => type_wf(t),
            None => true,
        }) && stmts_wf(body@),
        Statement::Struct { fields, .. } => params_wf(fields@),
        Statement::Extend { target, methods, .. } => type_wf(target) && stmts_wf(methods@),
        _ => true,
    }
}

pub open spec fn stmts_wf(s: Seq<Statement>) -> bool
    decreases s,
{
    if s.len() == 0 {
        true
    } else {
        stmts_wf(s.drop_last()) && stmt_wf(s.last())
    }
}

pub open spec fn else_ifs_wf(s: Seq<ElseIf>) -> bool
    decreases s,
{
    if s.len() == 0 {
        true
    } else {
        else_ifs_wf(s.drop_last()) && expr_wf(s.last().condition) && stmts_wf(s.last().block@)
    }
}

pub proof fn lemma_types_wf(s: Seq<Type>)
    ensures
        types_wf(s) <==> forall|i: int| 0 <= i < s.len() ==> type_wf(#[trigger] s[i]),
    decreases s.len(),
{
    if s.len() > 0 {
        lemma_types_wf(s.drop_last());
        assert(forall|i: int| 0 <= i < s.len() - 1 ==> s.drop_last()[i] == s[i]);
    }
}

pub proof fn lemma_exprs_wf(s: Seq<Expression>)
    ensures
        exprs_wf(s) <==> forall|i: int| 0 <= i < s.len() ==> expr_wf(#[trigger] s[i]),
    decreases s.len(),
{
    if s.len() > 0 {
        lemma_exprs_wf(s.drop_last());
        assert(forall|i: int| 0 <= i < s.len() - 1 ==> s.drop_last()[i] == s[i]);
    }
}

pub proof fn lemma_fields_wf(s: Seq<StructLiteralField>)
    ensures
        fields_wf(s) <==> forall|i: int| 0 <= i < s.len() ==> expr_wf(*(#[trigger] s[i]).field_val),
    decreases s.len(),
{
    if s.len() > 0 {
        lemma_fields_wf(s.drop_last());
        assert(forall|i: int| 0 <= i < s.len() - 1 ==> s.drop_last()[i] == s[i]);
    }
}

pub proof fn lemma_arms_wf(s: Seq<MatchArm>)
    ensures
        arms_wf(s) <==> forall|i: int| 0 <= i < s.len() ==> expr_wf((#[trigger] s[i]).pattern) && expr_wf(s[i].body),
    decreases s.len(),
{
    if s.len() > 0 {
        lemma_arms_wf(s.drop_last());
        assert(forall|i: int| 0 <= i < s.len() - 1 ==> s.drop_last()[i] == s[i]);
    }
}

pub proof fn lemma_params_wf(s: Seq<FuncParam>)
    ensures
        params_wf(s) <==> forall|i: int| 0 <= i < s.len() ==> type_wf((#[trigger] s[i]).param_type),
    decreases s.len(),
{
    if s.len() > 0 {
        lemma_params_wf(s.drop_last());
        assert(forall|i: int| 0 <= i < s.len() - 1 ==> s.drop_last()[i] == s[i]);
    }
}

pub proof fn lemma_stmts_wf(s: Seq<Statement>)
    ensures
        stmts_wf(s) <==> forall|i: int| 0 <= i < s.len() ==> stmt_wf(#[trigger] s[i]),
    decreases s.len(),
{
    if s.len() > 0 {
        lemma_stmts_wf(s.drop_last());
        assert(forall|i: int| 0 <= i < s.len() - 1 ==> s.drop_last()[i] == s[i]);
    }
}

pub proof fn lemma_else_ifs_wf(s: Seq<ElseIf>)
    ensures
        else_ifs_wf(s) <==> forall|i: int| 0 <= i < s.len() ==> expr_wf((#[trigger] s[i]).condition) && stmts_wf(
            s[i].block@,
        ),
    decreases s.len(),
{
    if s.len() > 0 {
        lemma_else_ifs_wf(s.drop_last());
        assert(forall|i: int| 0 <= i < s.len() - 1 ==> s.drop_last()[i] == s[i]);
    }
}

/// The number of nodes of an expression tree, statements inside it included.
pub open spec fn expr_size(e: Expression) -> nat
    decreases e,
{
    1 + match e {
        Expression::StructLiteral { fields, .. } => fields_size(fields@),
        Expression::Prefix { right, .. } => expr_size(*right),
        Expression::Infix { left, right, .. } => expr_size(*left) + expr_size(*right),
        Expression::Postfix { left, .. } => expr_size(*left),
        Expression::Index { left, index, .. } => expr_size(*left) + expr_size(*index),
        Expression::Call { function, args, .. } => expr_size(*function) + exprs_size(args@),
        Expression::Block { body, .. } => stmts_size(body@),
        Expression::Match { target, arms, .. } => expr_size(*target) + arms_size(arms@),
        Expression::Field { object, .. } => expr_size(*object),
        Expression::MethodCall { object, args, .. } => expr_size(*object) + exprs_size(args@),
        Expression::Lambda { body, .. } => stmts_size(body@),
        Expression::Range { start, end, .. } => (match start {
            Some(s) => expr_size(*s),
            None => 0,
        }) + (match end {
            Some(x) => expr_size(*x),
            None => 0,
        }),
        _ => 0,
    }
}

pub open spec fn exprs_size(s: Seq<Expression>) -> nat
    decreases s,
{
    if s.len() == 0 {
        0
    } else {
        exprs_size(s.drop_last()) + expr_size(s.last())
    }
}

pub open spec fn fields_size(s: Seq<StructLiteralField>) -> nat
    decreases s,
{
    if s.len() == 0 {
        0
    } else {
        fields_size(s.drop_last()) + expr_size(*s.last().field_val)
    }
}

pub open spec fn arms_size(s: Seq<MatchArm>) -> nat
    decreases s,
{
    if s.len() == 0 {
        0
    } else {
        arms_size(s.drop_last()) + expr_size(s.last().pattern) + expr_size(s.last().body)
    }
}

/// The number of nodes of a statement tree, expressions inside it included.
pub open spec fn stmt_size(st: Statement) -> nat
    decreases st,
{
    1 + match st {
        Statement::Expression { expression, .. } => expr_size(expression),
        Statement::Var { value, .. } => expr_size(value),
        Statement::Let { value, .. } => expr_size(value),
        Statement::Const { value, .. } => expr_size(value),
        Statement::If(i) => expr_size(i.condition) + stmts_size(i.then_block@) + else_ifs_size(i.else_if@)
            + stmts_size(i.else_block@),
        Statement::While { condition, body, .. } => expr_size(condition) + stmts_size(body@),
        Statement::ForRange { iterable, body, .. } => expr_size(iterable) + stmts_size(body@),
        Statement::ForCounter { init, condition, post, body, .. } => stmt_size(*init) + expr_size(condition)
            + expr_size(post) + stmts_size(body@),
        Statement::Return { value, .. } => match value {
            Some(v) => expr_size(v),
            None => 0,
        },
        Statement::Func { body, .. } => stmts_size(body@),
        Statement::Extend { methods, .. } => stmts_size(methods@),
        _ => 0,
    }
}

pub open spec fn stmts_size(s: Seq<Statement>) -> nat
    decreases s,
{
    if s.len() == 0 {
        0
    } else {
        stmts_size(s.drop_last()) + stmt_size(s.last())
    }
}

pub open spec fn else_ifs_size(s: Seq<ElseIf>) -> nat
    decreases s,
{
    if s.len() == 0 {
        0
    } else {
        else_ifs_size(s.drop_last()) + expr_size(s.last().condition) + stmts_size(s.last().block@)
    }
}

pub proof fn lemma_exprs_size(s: Seq<Expression>)
    ensures
        forall|i: int| 0 <= i < s.len() ==> expr_size(#[trigger] s[i]) <= exprs_size(s),
    decreases s.len(),
{
    if s.len() > 0 {
        lemma_exprs_size(s.drop_last());
        assert(forall|i: int| 0 <= i < s.len() - 1 ==> s.drop_last()[i] == s[i]);
    }
}

pub proof fn lemma_fields_size(s: Seq<StructLiteralField>)
    ensures
        forall|i: int| 0 <= i < s.len() ==> expr_size(*(#[trigger] s[i]).field_val) <= fields_size(s),
    decreases s.len(),
{
    if s.len() > 0 {
        lemma_fields_size(s.drop_last());
        assert(forall|i: int| 0 <= i < s.len() - 1 ==> s.drop_last()[i] == s[i]);
    }
}

pub proof fn lemma_stmts_size(s: Seq<Statement>)
    ensures
        forall|i: int| 0 <= i < s.len() ==> stmt_size(#[trigger] s[i]) <= stmts_size(s),
    decreases s.len(),
{
    if s.len() > 0 {
        lemma_stmts_size(s.drop_last());
        assert(forall|i: int| 0 <= i < s.len() - 1 ==> s.drop_last()[i] == s[i]);
    }
}

pub proof fn lemma_else_ifs_size(s: Seq<ElseIf>)
    ensures
        forall|i: int| 0 <= i < s.len() ==> expr_size((#[trigger] s[i]).condition) + stmts_size(s[i].block@)
            <= else_ifs_size(s),
    decreases s.len(),
{
    if s.len() > 0 {
        lemma_else_ifs_size(s.drop_last());
        assert(forall|i: int| 0 <= i < s.len() - 1 ==> s.drop_last()[i] == s[i]);
    }
}

/// A `match` pattern the code generator can lower: a name, a field, or a
/// variant call whose first argument is the name to bind.
pub open spec fn pattern_shape_ok(p: Expression) -> bool {
    match p {
        Expression::Call { function, args, .. } => (*function is Identifier) && args@.len() > 0 && (args@[0] is Identifier),
        Expression::MethodCall { args, .. } => args@.len() > 0 && (args@[0] is Identifier),
        _ => true,
    }
}

/// Every `match` pattern in the tree has a shape the code generator can lower.
pub open spec fn expr_cg(e: Expression) -> bool
    decreases e,
{
    match e {
        Expression::StructLiteral { fields, .. } => fields_cg(fields@),
        Expression::Prefix { right, .. } => expr_cg(*right),
        Expression::Infix { left, right, .. } => expr_cg(*left) && expr_cg(*right),
        Expression::Postfix { left, .. } => expr_cg(*left),
        Expression::Index { left, index, .. } => expr_cg(*left) && expr_cg(*index),
        Expression::Call { function, args, .. } => expr_cg(*function) && exprs_cg(args@),
        Expression::Block { body, .. } => stmts_cg(body@),
        Expression::Match { target, arms, .. } => expr_cg(*target) && arms_cg(arms@),
        Expression::Field { object, .. } => expr_cg(*object),
        Expression::MethodCall { object, args, .. } => expr_cg(*object) && exprs_cg(args@),
        Expression::Lambda { params, return_type, body, .. } => stmts_cg(body@),
        Expression::Range { start, end, .. } => (match start {
            Some(s) => expr_cg(*s),
            None => true,
        }) && (match end {
            Some(x) => expr_cg(*x),
            None => true,
        }),
        _ => true,
    }
}

pub open spec fn exprs_cg(s: Seq<Expression>) -> bool
    decreases s,
{
    if s.len() == 0 {
        true
    } else {
        exprs_cg(s.drop_last()) && expr_cg(s.last())
    }
}

pub open spec fn fields_cg(s: Seq<StructLiteralField>) -> bool
    decreases s,
{
    if s.len() == 0 {
        true
    } else {
        fields_cg(s.drop_last()) && expr_cg(*s.last().field_val)
    }
}

pub open spec fn arms_cg(s: Seq<MatchArm>) -> bool
    decreases s,
{
    if s.len() == 0 {
        true
    } else {
        arms_cg(s.drop_last()) && pattern_shape_ok(s.last().pattern) && expr_cg(s.last().pattern) && expr_cg(s.last().body)
    }
}

pub open spec fn stmt_cg(st: Statement) -> bool
    decreases st,
{
    match st {
        Statement::Expression { expression, .. } => expr_cg(expression),
        Statement::Var { value, .. } => expr_cg(value),
        Statement::Let { value, .. } => expr_cg(value),
        Statement::Const { value, .. } => expr_cg(value),
        Statement::If(i) => expr_cg(i.condition) && stmts_cg(i.then_block@) && else_ifs_cg(i.else_if@) && stmts_cg(
            i.else_block@,
        ),
        Statement::While { condition, body, .. } => expr_cg(condition) && stmts_cg(body@),
        Statement::ForRange { iterable, body, .. } => expr_cg(iterable) && stmts_cg(body@),
        Statement::ForCounter { init, condition, post, body, .. } => stmt_cg(*init) && expr_cg(condition) && expr_cg(
            post,
        ) && stmts_cg(body@),
        Statement::Return { value, .. } => match value {
            Some(v) => expr_cg(v),
            None => true,
        },
        Statement::Func { params, return_type, body, .. } => stmts_cg(body@),
        Statement::Extend { methods, .. } => stmts_cg(methods@),
        _ => true,
    }
}

pub open spec fn stmts_cg(s: Seq<Statement>) -> bool
    decreases s,
{
    if s.len() == 0 {
        true
    } else {
        stmts_cg(s.drop_last()) && stmt_cg(s.last())
    }
}

pub open spec fn else_ifs_cg(s: Seq<ElseIf>) -> bool
    decreases s,
{
    if s.len() == 0 {
        true
    } else {
        else_ifs_cg(s.drop_last()) && expr_cg(s.last().condition) && stmts_cg(s.last().block@)
    }
}


pub proof fn lemma_exprs_cg(s: Seq<Expression>)
    ensures
        exprs_cg(s) <==> forall|i: int| 0 <= i < s.len() ==> expr_cg(#[trigger] s[i]),
    decreases s.len(),
{
    if s.len() > 0 {
        lemma_exprs_cg(s.drop_last());
        assert(forall|i: int| 0 <= i < s.len() - 1 ==> s.drop_last()[i] == s[i]);
    }
}

pub proof fn lemma_fields_cg(s: Seq<StructLiteralField>)
    ensures
        fields_cg(s) <==> forall|i: int| 0 <= i < s.len() ==> expr_cg(*(#[trigger] s[i]).field_val),
    decreases s.len(),
{
    if s.len() > 0 {
        lemma_fields_cg(s.drop_last());
        assert(forall|i: int| 0 <= i < s.len() - 1 ==> s.drop_last()[i] == s[i]);
    }
}

pub proof fn lemma_arms_cg(s: Seq<MatchArm>)
    ensures
        arms_cg(s) <==> forall|i: int| 0 <= i < s.len() ==> pattern_shape_ok((#[trigger] s[i]).pattern) && expr_cg(
            s[i].pattern,
        ) && expr_cg(s[i].body),
    decreases s.len(),
{
    if s.len() > 0 {
        lemma_arms_cg(s.drop_last());
        assert(forall|i: int| 0 <= i < s.len() - 1 ==> s.drop_last()[i] == s[i]);
    }
}

pub proof fn lemma_stmts_cg(s: Seq<Statement>)
    ensures
        stmts_cg(s) <==> forall|i: int| 0 <= i < s.len() ==> stmt_cg(#[trigger] s[i]),
    decreases s.len(),
{
    if s.len() > 0 {
        lemma_stmts_cg(s.drop_last());
        assert(forall|i: int| 0 <= i < s.len() - 1 ==> s.drop_last()[i] == s[i]);
    }
}

pub proof fn lemma_else_ifs_cg(s: Seq<ElseIf>)
    ensures
        else_ifs_cg(s) <==> forall|i: int| 0 <= i < s.len() ==> expr_cg((#[trigger] s[i]).condition) && stmts_cg(
            s[i].block@,
        ),
    decreases s.len(),
{
    if s.len() > 0 {
        lemma_else_ifs_cg(s.drop_last());
        assert(forall|i: int| 0 <= i < s.len() - 1 ==> s.drop_last()[i] == s[i]);
    }
}

pub proof fn lemma_arms_size(s: Seq<MatchArm>)
    ensures
        forall|i: int| 0 <= i < s.len() ==> expr_size((#[trigger] s[i]).pattern) + expr_size(s[i].body) <= arms_size(s),
    decreases s.len(),
{
    if s.len() > 0 {
        lemma_arms_size(s.drop_last());
        assert(forall|i: int| 0 <= i < s.len() - 1 ==> s.drop_last()[i] == s[i]);
    }
}

} // verus!
