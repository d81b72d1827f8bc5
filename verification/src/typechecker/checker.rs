use vstd::prelude::*;

use crate::lexer::span::Span;
use crate::lexer::token::{PrimitiveType, Token};
use crate::parser::expression::Expression;
use crate::parser::program::Program;
use crate::parser::shape::{
    expr_size, expr_wf, exprs_size, exprs_wf, lemma_exprs_size, lemma_exprs_wf, lemma_params_wf, lemma_stmts_size,
    lemma_stmts_wf, lemma_types_wf, params_wf, stmt_size, stmt_wf, stmts_size, stmts_wf, type_wf, types_wf,
};
use crate::parser::statement::{FuncParam, Statement};
use crate::parser::types::Type;
use crate::text::{string_from, string_push_str};
use crate::typechecker::env::{lookup_in, Entity, EntityView, Env};
pub use crate::typechecker::error::TypeError;
use crate::typechecker::error::{errors_view, lemma_errors_view_push, BindingKind, DefinitionKind, ErrorView, LoopControlKind};
use crate::typechecker::reports::{
    args_errs, call_errs, errs_of, expect_errs, exprs_lambda_free, field_errs, fields_errs, fields_lambda_free,
    infix_errs, lambda_free, lemma_exprs_lambda_free, lemma_fields_lambda_free, method_call_errs,
    lemma_fields_errs_stop, prefix_errs, struct_literal_errs,
};
use crate::typechecker::table::{find_entry, insert_entry, lemma_table_map, push_new_entry, table_map, unique_names, Entry};
use crate::typechecker::types::{debug_text, lemma_views, ty_eq, Ty, TyView};
use crate::typechecker::typing::{
    call_ty, else_ifs_no_extern, expected_view, expr_no_extern, exprs_no_extern, field_ty, fields_err, fields_no_extern,
    first_field, lambda_param_ty, lambda_ty, lemma_else_ifs_no_extern, lemma_exprs_no_extern, lemma_fields_err,
    lemma_fields_no_extern, lemma_first_field, lemma_stmts_no_extern, method_call_ty, static_method, stmt_no_extern,
    stmts_no_extern, ty_of, Typing,
};

verus! {

/// The signature of a function: its parameter types, its result type and
/// where it was declared.
#[derive(Debug, PartialEq)]
pub struct FnSig {
    pub params: Vec<Ty>,
    pub ret: Ty,
    pub span: Span,
}

pub struct FnSigView {
    pub params: Seq<TyView>,
    pub ret: TyView,
    pub span: Span,
}

impl View for FnSig {
    type V = FnSigView;

    open spec fn view(&self) -> FnSigView {
        FnSigView { params: Ty::views(self.params@), ret: self.ret@, span: self.span }
    }
}

impl FnSig {
    pub fn duplicate(&self) -> (r: FnSig)
        ensures
            r@ == self@,
    {
        FnSig { params: Ty::duplicate_all(&self.params), ret: self.ret.duplicate(), span: self.span }
    }
}

/// A field of a struct: its name, type and place.
#[derive(Debug, PartialEq)]
pub struct StructField {
    pub name: String,
    pub ty: Ty,
    pub span: Span,
}

pub struct FieldView {
    pub name: Seq<char>,
    pub ty: TyView,
    pub span: Span,
}

/// The fields of a struct, in declaration order.
#[derive(Debug, PartialEq)]
pub struct StructSig {
    pub fields: Vec<StructField>,
}

pub open spec fn field_views(s: Seq<StructField>) -> Seq<FieldView> {
    Seq::new(s.len(), |i: int| FieldView { name: s[i].name@, ty: s[i].ty@, span: s[i].span })
}

impl View for StructSig {
    type V = Seq<FieldView>;

    open spec fn view(&self) -> Seq<FieldView> {
        field_views(self.fields@)
    }
}

/// The type a written type denotes.
pub open spec fn resolve_ty(t: Type) -> TyView
    decreases t,
{
    match t {
        Type::Primitive(p) => match p {
            PrimitiveType::Float32 | PrimitiveType::Float64 => TyView::Float,
            PrimitiveType::String => TyView::String,
            PrimitiveType::Bool => TyView::Bool,
            _ => TyView::Int,
        },
        Type::Named(path) => TyView::Struct(path.segments@.last()@),
        Type::Fn { params, ret } => TyView::Fn {
            params: resolve_tys(params@),
            ret: Box::new(
                match ret {
                    Some(r) => resolve_ty(*r),
                    None => TyView::Unit,
                },
            ),
        },
        Type::Union(types) => TyView::Union(resolve_tys(types@)),
        Type::Generic { name, param } => TyView::Generic { name: name@, param: Box::new(resolve_ty(*param)) },
        Type::Infer => TyView::Infer,
    }
}

pub open spec fn resolve_tys(s: Seq<Type>) -> Seq<TyView>
    decreases s,
{
    if s.len() == 0 {
        Seq::empty()
    } else {
        resolve_tys(s.drop_last()).push(resolve_ty(s.last()))
    }
}

/// The declared result type of a function, `void` when none is written.
pub open spec fn resolve_ret(t: Option<Type>) -> TyView {
    match t {
        Some(t) => resolve_ty(t),
        None => TyView::Unit,
    }
}

/// Whether a value of type `actual` may stand where `expected` is wanted:
/// the same type, a member of an expected union, or an error already reported.
pub open spec fn accepts(actual: TyView, expected: TyView) -> bool {
    ||| (expected matches TyView::Union(members) && members.contains(actual))
    ||| actual is Error
    ||| expected is Error
    ||| actual == expected
}

/// `e` reports that `found` stood where `expected` was wanted.
pub open spec fn is_mismatch(e: TypeError, expected: TyView, found: TyView, span: Span) -> bool {
    e matches TypeError::Mismatch { expected: x, found: y, span: s } && x@ == expected && y@ == found && s == span
}

/// The type of `l op r`, for operands of types `l` and `r`.
pub open spec fn infix_type(op: Token, l: TyView, r: TyView) -> TyView {
    if op is Add {
        if (l is Int && r is Int) || (l is Float && r is Float) || (l is String && r is String) {
            l
        } else {
            TyView::Error
        }
    } else if op is Subtract || op is Multiply || op is Divide || op is Power {
        if (l is Int && r is Int) || (l is Float && r is Float) {
            l
        } else {
            TyView::Error
        }
    } else if op is Modulus {
        if l is Int && r is Int {
            TyView::Int
        } else {
            TyView::Error
        }
    } else if op is Less || op is Greater || op is LessOrEquals || op is GreaterOrEquals {
        if ((l is Int && r is Int) || (l is Float && r is Float)) || !(l is Error || r is Error) {
            TyView::Bool
        } else {
            TyView::Error
        }
    } else if op is Equals || op is NotEquals {
        if l is Error || r is Error || l != r {
            TyView::Error
        } else {
            TyView::Bool
        }
    } else if op is LogicAnd || op is LogicOr {
        TyView::Bool
    } else if op is BitAnd || op is BitOr || op is BitNot || op is BitXOR {
        TyView::Int
    } else {
        TyView::Error
    }
}

/// Whether `l op r` is reported as an operator that does not apply to its
/// operand types.
pub open spec fn infix_rejected(op: Token, l: TyView, r: TyView) -> bool {
    if op is Add {
        !((l is Int && r is Int) || (l is Float && r is Float) || (l is String && r is String) || l is Error
            || r is Error)
    } else if op is Subtract || op is Multiply || op is Divide || op is Power || op is Less || op is Greater
        || op is LessOrEquals || op is GreaterOrEquals {
        !((l is Int && r is Int) || (l is Float && r is Float) || l is Error || r is Error)
    } else if op is Modulus {
        !((l is Int && r is Int) || l is Error || r is Error)
    } else if op is Equals || op is NotEquals {
        !(l is Error || r is Error) && l != r
    } else {
        false
    }
}

/// The type an operator with both operands of one type asks for: `bool`
/// for `&&` and `||`, `int` for the bitwise operators.
pub open spec fn operand_demand(op: Token) -> Option<TyView> {
    if op is LogicAnd || op is LogicOr {
        Some(TyView::Bool)
    } else if op is BitAnd || op is BitOr || op is BitNot || op is BitXOR {
        Some(TyView::Int)
    } else {
        None
    }
}

/// The type of `op r`, for an operand of type `r`.
pub open spec fn prefix_type(op: Token, r: TyView) -> TyView {
    if op is LogicNot {
        TyView::Bool
    } else if op is Subtract {
        if r is Int || r is Float {
            r
        } else {
            TyView::Error
        }
    } else if op is BitNot {
        TyView::Int
    } else {
        TyView::Error
    }
}

/// `e` reports the binary operator `op` on operands of types `l` and `r`.
pub open spec fn is_bad_binary(e: TypeError, op: Token, l: TyView, r: TyView, span: Span) -> bool {
    e matches TypeError::InvalidBinaryOperator { operator, left, right, span: s } && operator == op && left@ == l
        && right@ == r && s == span
}

/// The errors that checking the operands of `l op r` against the type the
/// operator demands appends, when it demands one.
pub open spec fn demand_reports(errors: Seq<TypeError>, prev: Seq<TypeError>, want: TyView, l: TyView, r: TyView, span: Span) -> bool {
    let nl: int = if accepts(l, want) { 0 } else { 1 };
    let nr: int = if accepts(r, want) { 0 } else { 1 };
    &&& errors.len() == prev.len() + nl + nr
    &&& errors.subrange(0, prev.len() as int) == prev
    &&& nl == 1 ==> is_mismatch(errors[prev.len() as int], want, l, span)
    &&& nr == 1 ==> is_mismatch(errors[prev.len() + nl], want, r, span)
}

/// The name of `s.name` for a method `name` of the struct `s`.
pub open spec fn method_key(s: Seq<char>, name: Seq<char>) -> Seq<char> {
    s + "."@ + name
}

/// `text` joined as `a.b`.
pub fn dotted(a: &String, b: &String) -> (r: String)
    ensures
        r@ == method_key(a@, b@),
{
    let mut r = a.clone();
    string_push_str(&mut r, ".");
    string_push_str(&mut r, b.as_str());
    proof {
        reveal_strlit(".");
    }
    r
}

/// Whether a statement ends every path through it with `return`.
pub open spec fn stmt_returns(st: Statement) -> bool
    decreases st,
{
    match st {
        Statement::Return { .. } => true,
        Statement::If(i) => block_returns(i.then_block@) && elifs_return(i.else_if@) && block_returns(
            i.else_block@,
        ),
        _ => false,
    }
}

/// Whether some statement of the block returns on every path through it.
pub open spec fn block_returns(s: Seq<Statement>) -> bool
    decreases s,
{
    if s.len() == 0 {
        false
    } else {
        block_returns(s.drop_last()) || stmt_returns(s.last())
    }
}

/// Whether every `else if` branch returns on every path.
pub open spec fn elifs_return(s: Seq<crate::parser::statement::ElseIf>) -> bool
    decreases s,
{
    if s.len() == 0 {
        true
    } else {
        elifs_return(s.drop_last()) && block_returns(s.last().block@)
    }
}

/// Whether the token is `=` or one of the compound assignments.
pub fn is_assignment(t: &Token) -> (r: bool)
    ensures
        r == (*t is Assign || *t is AddAndAssign || *t is SubAndAssign || *t is MulAndAssign || *t is DivAndAssign
            || *t is ModAndAssign),
{
    matches!(t, Token::Assign | Token::AddAndAssign | Token::SubAndAssign | Token::MulAndAssign
        | Token::DivAndAssign | Token::ModAndAssign)
}

/// `a` starts with `b`.
pub open spec fn extends<T>(a: Seq<T>, b: Seq<T>) -> bool {
    b.len() <= a.len() && forall|i: int| 0 <= i < b.len() ==> #[trigger] a[i] == b[i]
}

/// The type checker: the signatures of the program's functions and structs,
/// the scopes of its names, and the errors found so far.
pub struct Checker {
    pub funcs: Vec<Entry<FnSig>>,
    pub structs: Vec<Entry<StructSig>>,
    pub env: Env,
    pub current_ret: Ty,
    pub errors: Vec<TypeError>,
    pub main_fn_span: Option<Span>,
    pub in_loop: bool,
}

impl Checker {
    pub open spec fn wf(&self) -> bool {
        &&& self.env.wf()
        &&& unique_names(self.funcs@)
        &&& unique_names(self.structs@)
    }

    /// The function signatures by name.
    pub open spec fn funcs_map(&self) -> Map<Seq<char>, FnSigView> {
        table_map(self.funcs@)
    }

    /// The struct declarations by name.
    pub open spec fn structs_map(&self) -> Map<Seq<char>, Seq<FieldView>> {
        table_map(self.structs@)
    }

    /// What the typing of an expression reads in this state.
    pub open spec fn typing(&self) -> Typing {
        Typing { scopes: self.env.scope_maps(), funcs: self.funcs_map(), structs: self.structs_map() }
    }

    /// `self` differs from `prev` in its errors alone, which it extends.
    pub open spec fn only_reports(&self, prev: &Checker) -> bool {
        &&& self.funcs == prev.funcs
        &&& self.structs == prev.structs
        &&& self.env == prev.env
        &&& self.current_ret == prev.current_ret
        &&& self.main_fn_span == prev.main_fn_span
        &&& self.in_loop == prev.in_loop
        &&& extends(self.errors@, prev.errors@)
    }

    /// A checker with no signatures, no scopes and no errors.
    pub fn new() -> (c: Checker)
        ensures
            c.wf(),
            c.funcs_map() == Map::<Seq<char>, FnSigView>::empty(),
            c.structs_map() == Map::<Seq<char>, Seq<FieldView>>::empty(),
            c.env.scope_maps().len() == 0,
            c.current_ret@ == TyView::Unit,
            c.errors@.len() == 0,
            c.main_fn_span is None,
            !c.in_loop,
    {
        Checker {
            funcs: Vec::new(),
            structs: Vec::new(),
            env: Env::new(),
            current_ret: Ty::Unit,
            errors: Vec::new(),
            main_fn_span: None,
            in_loop: false,
        }
    }

    /// Reports a mismatch unless a value of type `actual` may stand where
    /// `expected` is wanted.
    pub fn expect(&mut self, actual: &Ty, expected: &Ty, span: Span)
        ensures
            final(self).only_reports(old(self)),
            accepts(actual@, expected@) ==> final(self).errors@ == old(self).errors@,
            !accepts(actual@, expected@) ==> final(self).errors@.len() == old(self).errors@.len() + 1
                && is_mismatch(final(self).errors@.last(), expected@, actual@, span),
            errors_view(final(self).errors@) == errors_view(old(self).errors@) + expect_errs(actual@, expected@, span),
    {
        proof {
            assert(errors_view(self.errors@) =~= errors_view(self.errors@) + Seq::empty());
        }
        if let Ty::Union(types) = expected {
            proof {
                lemma_views(types@);
            }
            let mut i: usize = 0;
            while i < types.len()
                invariant
                    i <= types.len(),
                    expected@ == TyView::Union(Ty::views(types@)),
                    Ty::views(types@).len() == types.len(),
                    forall|k: int| 0 <= k < types.len() ==> #[trigger] Ty::views(types@)[k] == types@[k]@,
                    forall|k: int| 0 <= k < i ==> types@[k]@ != actual@,
                decreases types.len() - i,
            {
                if ty_eq(&types[i], actual) {
                    assert(Ty::views(types@)[i as int] == actual@);
                    assert(Ty::views(types@).contains(actual@));
                    return;
                }
                i = i + 1;
            }
            assert(!Ty::views(types@).contains(actual@));
        }
        let actual_is_error = matches!(actual, Ty::Error);
        let expected_is_error = matches!(expected, Ty::Error);
        if !actual_is_error && !expected_is_error && !ty_eq(actual, expected) {
            let e = TypeError::Mismatch { expected: expected.duplicate(), found: actual.duplicate(), span };
            proof {
                lemma_errors_view_push(self.errors@, e);
            }
            self.errors.push(e);
        }
    }

    /// Binds `name` in the innermost scope, reporting a second binding of a
    /// name in the same scope.
    pub fn defined(&mut self, name: String, ty: Ty, kind: BindingKind, span: Span)
        requires
            old(self).wf(),
        ensures
            final(self).wf(),
            final(self).funcs == old(self).funcs,
            final(self).structs == old(self).structs,
            final(self).current_ret == old(self).current_ret,
            final(self).main_fn_span == old(self).main_fn_span,
            final(self).in_loop == old(self).in_loop,
            ({
                let base = if old(self).env.scope_maps().len() == 0 {
                    old(self).env.scope_maps().push(Map::empty())
                } else {
                    old(self).env.scope_maps()
                };
                let last = base.last();
                &&& last.contains_key(name@) ==> {
                    &&& final(self).env.scope_maps() == base
                    &&& final(self).errors@ == old(self).errors@.push(
                        TypeError::DuplicateDefinition {
                            name,
                            first_span: last[name@].span,
                            second_span: span,
                            def_kind: DefinitionKind::Var,
                        },
                    )
                }
                &&& !last.contains_key(name@) ==> {
                    &&& final(self).errors@ == old(self).errors@
                    &&& final(self).env.scope_maps() == base.update(
                        base.len() - 1,
                        last.insert(name@, EntityView { ty: ty@, kind, span }),
                    )
                }
            }),
    {
        if let Err(e) = self.env.define(name, ty, kind, &span) {
            self.errors.push(e);
        }
    }

    /// The type a written type denotes.
    pub fn resolve(&mut self, t: &Type) -> (r: Ty)
        requires
            type_wf(*t),
        ensures
            *final(self) == *old(self),
            r@ == resolve_ty(*t),
        decreases t,
    {
        match t {
            Type::Primitive(p) => {
                let r = match p {
                    PrimitiveType::Float32 => Ty::Float,
                    PrimitiveType::Float64 => Ty::Float,
                    PrimitiveType::String => Ty::String,
                    PrimitiveType::Bool => Ty::Bool,
                    _ => Ty::Int,
                };
                assert(r@ == resolve_ty(*t));
                r
            },
            Type::Named(path) => {
                let last = path.segments[path.segments.len() - 1].clone();
                assert(last@ == path.segments@.last()@);
                Ty::Struct(last)
            },
            Type::Fn { params, ret } => {
                let ps = self.resolve_all(params);
                let r = match ret {
                    Some(rt) => self.resolve(rt),
                    None => Ty::Unit,
                };
                let f = Ty::Fn { params: ps, ret: Box::new(r) };
                assert(f@ == resolve_ty(*t));
                f
            },
            Type::Union(types) => {
                let u = Ty::Union(self.resolve_all(types));
                assert(u@ == resolve_ty(*t));
                u
            },
            Type::Generic { name, param } => {
                let g = Ty::Generic { name: name.clone(), param: Box::new(self.resolve(param)) };
                assert(g@ == resolve_ty(*t));
                g
            },
            Type::Infer => Ty::Infer,
        }
    }

    /// The types that a list of written types denote, in order.
    pub fn resolve_all(&mut self, ts: &Vec<Type>) -> (r: Vec<Ty>)
        requires
            types_wf(ts@),
        ensures
            *final(self) == *old(self),
            Ty::views(r@) == resolve_tys(ts@),
        decreases ts,
    {
        proof {
            lemma_types_wf(ts@);
        }
        let mut r: Vec<Ty> = Vec::new();
        let mut i: usize = 0;
        while i < ts.len()
            invariant
                i <= ts.len(),
                *self == *old(self),
                forall|k: int| 0 <= k < ts.len() ==> type_wf(#[trigger] ts@[k]),
                Ty::views(r@) == resolve_tys(ts@.subrange(0, i as int)),
            decreases ts.len() - i,
        {
            proof {
                assert(decreases_to!(ts => ts[i as int]));
            }
            let t = self.resolve(&ts[i]);
            let ghost before = r@;
            r.push(t);
            proof {
                let sub = ts@.subrange(0, i + 1);
                assert(sub.drop_last() == ts@.subrange(0, i as int));
                assert(r@.drop_last() == before);
            }
            i = i + 1;
        }
        proof {
            assert(ts@.subrange(0, ts.len() as int) == ts@);
        }
        r
    }

    /// The type of `left_ty op right_ty`, reporting an operator that does not
    /// apply at `span` and operands of the wrong type at `expr_span`.
    pub fn check_infix(&mut self, operator: &Token, left_ty: Ty, right_ty: Ty, span: Span, expr_span: Span) -> (r: Ty)
        ensures
            r@ == infix_type(*operator, left_ty@, right_ty@),
            final(self).only_reports(old(self)),
            match operand_demand(*operator) {
                Some(want) => demand_reports(final(self).errors@, old(self).errors@, want, left_ty@, right_ty@, expr_span),
                None => if infix_rejected(*operator, left_ty@, right_ty@) {
                    final(self).errors@.len() == old(self).errors@.len() + 1
                        && final(self).errors@.drop_last() == old(self).errors@
                        && is_bad_binary(final(self).errors@.last(), *operator, left_ty@, right_ty@, span)
                } else {
                    final(self).errors@ == old(self).errors@
                },
            },
            errors_view(final(self).errors@) == errors_view(old(self).errors@) + infix_errs(
                *operator,
                left_ty@,
                right_ty@,
                span,
                expr_span,
            ),
    {
        proof {
            assert(errors_view(self.errors@) =~= errors_view(self.errors@) + Seq::empty());
        }
        let l_int = matches!(left_ty, Ty::Int);
        let r_int = matches!(right_ty, Ty::Int);
        let l_float = matches!(left_ty, Ty::Float);
        let r_float = matches!(right_ty, Ty::Float);
        let any_error = matches!(left_ty, Ty::Error) || matches!(right_ty, Ty::Error);
        let numeric = (l_int && r_int) || (l_float && r_float);
        if matches!(operator, Token::LogicAnd | Token::LogicOr) {
            let ghost prev = self.errors@;
            self.expect(&left_ty, &Ty::Bool, expr_span);
            let ghost mid = self.errors@;
            self.expect(&right_ty, &Ty::Bool, expr_span);
            proof {
                assert(extends(self.errors@, mid));
                assert(extends(mid, prev));
                assert(self.errors@.subrange(0, prev.len() as int) =~= prev);
                assert(errors_view(self.errors@) =~= errors_view(prev) + infix_errs(
                    *operator,
                    left_ty@,
                    right_ty@,
                    span,
                    expr_span,
                ));
            }
            return Ty::Bool;
        }
        if matches!(operator, Token::BitAnd | Token::BitOr | Token::BitNot | Token::BitXOR) {
            let ghost prev = self.errors@;
            self.expect(&left_ty, &Ty::Int, expr_span);
            let ghost mid = self.errors@;
            self.expect(&right_ty, &Ty::Int, expr_span);
            proof {
                assert(extends(self.errors@, mid));
                assert(extends(mid, prev));
                assert(self.errors@.subrange(0, prev.len() as int) =~= prev);
                assert(errors_view(self.errors@) =~= errors_view(prev) + infix_errs(
                    *operator,
                    left_ty@,
                    right_ty@,
                    span,
                    expr_span,
                ));
            }
            return Ty::Int;
        }
        let (result, rejected) = if matches!(operator, Token::Add) {
            if numeric || (matches!(left_ty, Ty::String) && matches!(right_ty, Ty::String)) {
                (left_ty.duplicate(), false)
            } else {
                (Ty::Error, !any_error)
            }
        } else if matches!(operator, Token::Subtract | Token::Multiply | Token::Divide | Token::Power) {
            if numeric {
                (left_ty.duplicate(), false)
            } else {
                (Ty::Error, !any_error)
            }
        } else if matches!(operator, Token::Modulus) {
            if l_int && r_int {
                (Ty::Int, false)
            } else {
                (Ty::Error, !any_error)
            }
        } else if matches!(operator, Token::Less | Token::Greater | Token::LessOrEquals | Token::GreaterOrEquals) {
            if numeric {
                (Ty::Bool, false)
            } else if any_error {
                (Ty::Error, false)
            } else {
                (Ty::Bool, true)
            }
        } else if matches!(operator, Token::Equals | Token::NotEquals) {
            if any_error {
                (Ty::Error, false)
            } else if !ty_eq(&left_ty, &right_ty) {
                (Ty::Error, true)
            } else {
                (Ty::Bool, false)
            }
        } else {
            (Ty::Error, false)
        };
        if rejected {
            let e = TypeError::InvalidBinaryOperator {
                operator: operator.duplicate(),
                left: Box::new(left_ty),
                right: Box::new(right_ty),
                span,
            };
            proof {
                lemma_errors_view_push(self.errors@, e);
            }
            self.errors.push(e);
        }
        result
    }

    /// The type of `operator right_ty`, reporting an operator that does not
    /// apply at `span` and an operand of the wrong type at `expr_span`.
    pub fn check_prefix(&mut self, operator: &Token, right_ty: Ty, span: Span, expr_span: Span) -> (r: Ty)
        ensures
            r@ == prefix_type(*operator, right_ty@),
            final(self).only_reports(old(self)),
            (*operator is LogicNot || *operator is BitNot) ==> {
                let want = if *operator is LogicNot { TyView::Bool } else { TyView::Int };
                &&& accepts(right_ty@, want) ==> final(self).errors@ == old(self).errors@
                &&& !accepts(right_ty@, want) ==> final(self).errors@.len() == old(self).errors@.len() + 1
                    && is_mismatch(final(self).errors@.last(), want, right_ty@, expr_span)
            },
            *operator is Subtract ==> if right_ty@ is Int || right_ty@ is Float {
                final(self).errors@ == old(self).errors@
            } else {
                final(self).errors@ == old(self).errors@.push(
                    TypeError::InvalidUnaryOperator { operator: *operator, operand: right_ty, span },
                )
            },
            !(*operator is LogicNot || *operator is BitNot || *operator is Subtract) ==> final(self).errors@
                == old(self).errors@,
            errors_view(final(self).errors@) == errors_view(old(self).errors@) + prefix_errs(
                *operator,
                right_ty@,
                span,
                expr_span,
            ),
    {
        proof {
            assert(errors_view(self.errors@) =~= errors_view(self.errors@) + Seq::empty());
        }
        if matches!(operator, Token::LogicNot) {
            self.expect(&right_ty, &Ty::Bool, expr_span);
            Ty::Bool
        } else if matches!(operator, Token::Subtract) {
            if matches!(right_ty, Ty::Int | Ty::Float) {
                right_ty
            } else {
                let e = TypeError::InvalidUnaryOperator { operator: operator.duplicate(), operand: right_ty, span };
                proof {
                    lemma_errors_view_push(self.errors@, e);
                }
                self.errors.push(e);
                Ty::Error
            }
        } else if matches!(operator, Token::BitNot) {
            self.expect(&right_ty, &Ty::Int, expr_span);
            Ty::Int
        } else {
            Ty::Error
        }
    }

    /// The result type a function declares: `void` when it writes none.
    pub fn resolve_return(&mut self, t: &Option<Type>) -> (r: Ty)
        requires
            match *t {
                Some(t) => type_wf(t),
                None => true,
            },
        ensures
            *final(self) == *old(self),
            r@ == resolve_ret(*t),
    {
        match t {
            Some(t) => self.resolve(t),
            None => Ty::Unit,
        }
    }
}

impl Checker {
    /// `self` is a later state of `prev` whose struct table, entry point and
    /// reported errors it keeps, and whose functions it still knows.
    pub open spec fn keeps_tables(&self, prev: &Checker) -> bool {
        &&& self.wf()
        &&& self.structs == prev.structs
        &&& prev.funcs_map().dom().subset_of(self.funcs_map().dom())
        &&& self.main_fn_span == prev.main_fn_span
        &&& extends(self.errors@, prev.errors@)
    }

    /// `self` has as many scopes as `prev` had, the outer ones unchanged.
    pub open spec fn keeps_outer_scopes(&self, prev: &Checker) -> bool {
        let n = prev.env.scope_maps().len();
        n > 0 ==> {
            &&& self.env.scope_maps().len() == n
            &&& self.env.scope_maps().take(n - 1) == prev.env.scope_maps().take(n - 1)
        }
    }

    /// Infers the type of an expression, reporting what is wrong in it.
    /// `expected_ty` is the type the context wants, which gives a lambda its
    /// parameter and result types where it writes none.
    #[verifier::rlimit(60)]
    pub fn infer(&mut self, expr: &Expression, expected_ty: Option<&Ty>) -> (r: Ty)
        requires
            old(self).wf(),
            expr_wf(*expr),
        ensures
            final(self).keeps_tables(old(self)),
            final(self).env.scope_maps() == old(self).env.scope_maps(),
            final(self).current_ret@ == old(self).current_ret@,
            (expr is IntLiteral || expr is BoolLiteral || expr is StringLiteral || expr is FloatLiteral)
                ==> *final(self) == *old(self),
            expr is IntLiteral ==> r@ == TyView::Int,
            expr is BoolLiteral ==> r@ == TyView::Bool,
            expr is StringLiteral ==> r@ == TyView::String,
            expr is FloatLiteral ==> r@ == TyView::Float,
            expr matches Expression::Identifier { name, .. } ==> match lookup_in(old(self).env.scope_maps(), name@) {
                Some(e) => r@ == e.ty && *final(self) == *old(self),
                None => r@ == TyView::Error && final(self).errors@ == old(self).errors@.push(
                    (TypeError::UnknownName { name: *name, span: expr.spec_span() }),
                ),
            },
            expr is Range ==> r@ == (TyView::Generic { name: "Range"@, param: Box::new(TyView::Int) }),
            expr_no_extern(*expr) ==> final(self).funcs == old(self).funcs,
            expr_no_extern(*expr) ==> r@ == ty_of(old(self).typing(), *expr, expected_view(expected_ty)),
            expr_no_extern(*expr) && lambda_free(*expr) ==> errors_view(final(self).errors@) == errors_view(
                old(self).errors@,
            ) + errs_of(old(self).typing(), *expr, expected_view(expected_ty)),
        decreases expr_size(*expr), 0int,
    {
        let ghost g = self.typing();
        let ghost ev0 = errors_view(self.errors@);
        let ghost plain = expr_no_extern(*expr) && lambda_free(*expr);
        proof {
            assert(ev0 =~= ev0 + Seq::empty());
        }
        match expr {
            Expression::IntLiteral { .. } => Ty::Int,
            Expression::BoolLiteral { .. } => Ty::Bool,
            Expression::StringLiteral { .. } => Ty::String,
            Expression::FloatLiteral { .. } => Ty::Float,
            Expression::Identifier { name, .. } => match self.env.lookup(name.as_str()) {
                Some(entity) => entity.ty,
                None => {
                    let e = TypeError::UnknownName { name: name.clone(), span: expr.span() };
                    proof {
                        lemma_errors_view_push(self.errors@, e);
                    }
                    self.errors.push(e);
                    Ty::Error
                },
            },
            Expression::Infix { left, operator, right, span } => {
                let left_ty = self.infer(left, None);
                let right_ty = self.infer(right, None);
                let r = self.check_infix(operator, left_ty, right_ty, *span, expr.span());
                proof {
                    if plain {
                        assert(errors_view(self.errors@) =~= ev0 + errs_of(g, *expr, expected_view(expected_ty)));
                    }
                }
                r
            },
            Expression::Prefix { operator, right, span } => {
                let right_ty = self.infer(right, None);
                let r = self.check_prefix(operator, right_ty, *span, expr.span());
                proof {
                    if plain {
                        assert(errors_view(self.errors@) =~= ev0 + errs_of(g, *expr, expected_view(expected_ty)));
                    }
                }
                r
            },
            Expression::Range { start, end, .. } => {
                let start_ty = match start {
                    Some(st) => self.infer(st, None),
                    None => Ty::Int,
                };
                let ghost ev1 = errors_view(self.errors@);
                proof {
                    if plain && start is None {
                        assert(ev1 =~= ev0 + Seq::empty());
                    }
                }
                let end_ty = match end {
                    Some(en) => self.infer(en, None),
                    None => Ty::Int,
                };
                let ghost ev2 = errors_view(self.errors@);
                proof {
                    if plain && end is None {
                        assert(ev2 =~= ev1 + Seq::empty());
                    }
                }
                self.expect(&start_ty, &Ty::Int, expr.span());
                self.expect(&end_ty, &Ty::Int, expr.span());
                proof {
                    reveal_strlit("Range");
                    if plain {
                        assert(errors_view(self.errors@) =~= ev0 + errs_of(g, *expr, expected_view(expected_ty)));
                    }
                }
                Ty::Generic { name: string_from("Range"), param: Box::new(Ty::Int) }
            },
            Expression::Index { left, index, span } => {
                let left_ty = self.infer(left, None);
                let index_ty = self.infer(index, None);
                self.expect(&index_ty, &Ty::Int, *span);
                let ghost ev3 = errors_view(self.errors@);
                let r = match left_ty {
                    Ty::String => Ty::Int,
                    Ty::Error => Ty::Error,
                    _ => {
                        let mut desc = string_from("Type `");
                        let d = left_ty.debug();
                        string_push_str(&mut desc, d.as_str());
                        string_push_str(&mut desc, "` doesn't support indexing");
                        let e = TypeError::Unsupported { desc, span: *span };
                        proof {
                            lemma_errors_view_push(self.errors@, e);
                        }
                        self.errors.push(e);
                        Ty::Error
                    },
                };
                proof {
                    if plain {
                        assert(errors_view(self.errors@) =~= ev0 + errs_of(g, *expr, expected_view(expected_ty)));
                    }
                }
                r
            },
            Expression::Call { function, args, span } => self.infer_call(function, args, *span),
            Expression::Lambda { params, return_type, body, .. } => self.infer_lambda(
                params,
                return_type,
                body,
                expected_ty,
            ),
            Expression::StructLiteral { name, fields, span } => self.infer_struct_literal(name, fields, *span),
            Expression::Field { object, name, span } => self.infer_field(object, name, *span),
            Expression::MethodCall { object, name, args, span } => self.infer_method_call(object, name, args, *span),
            _ => Ty::Error,
        }
    }

    /// Checks each argument against its parameter type, in order.
    fn check_args(&mut self, args: &Vec<Expression>, params: &Vec<Ty>, skip: usize)
        requires
            old(self).wf(),
            exprs_wf(args@),
            skip <= params.len(),
            args.len() == params.len() - skip,
        ensures
            final(self).keeps_tables(old(self)),
            final(self).env.scope_maps() == old(self).env.scope_maps(),
            final(self).current_ret@ == old(self).current_ret@,
            exprs_no_extern(args@) ==> final(self).funcs == old(self).funcs,
            exprs_no_extern(args@) && exprs_lambda_free(args@) ==> errors_view(final(self).errors@) == errors_view(
                old(self).errors@,
            ) + args_errs(old(self).typing(), args@, Ty::views(params@), skip as int),
        decreases exprs_size(args@), 1int,
    {
        proof {
            lemma_exprs_wf(args@);
            lemma_exprs_size(args@);
            lemma_exprs_no_extern(args@);
            lemma_exprs_lambda_free(args@);
            lemma_views(params@);
            assert(args@.take(0) =~= Seq::<Expression>::empty());
            assert(errors_view(self.errors@) =~= errors_view(self.errors@) + Seq::empty());
        }
        let ghost plain = exprs_no_extern(args@) && exprs_lambda_free(args@);
        let mut i: usize = 0;
        while i < args.len()
            invariant
                i <= args.len(),
                args.len() == params.len() - skip,
                self.wf(),
                self.keeps_tables(old(self)),
                self.env.scope_maps() == old(self).env.scope_maps(),
                self.current_ret@ == old(self).current_ret@,
                forall|k: int| 0 <= k < args.len() ==> expr_wf(#[trigger] args@[k]),
                forall|k: int| 0 <= k < args.len() ==> expr_size(#[trigger] args@[k]) <= exprs_size(args@),
                exprs_no_extern(args@) ==> forall|k: int| 0 <= k < args.len() ==> expr_no_extern(#[trigger] args@[k]),
                exprs_no_extern(args@) ==> self.funcs == old(self).funcs,
                plain == (exprs_no_extern(args@) && exprs_lambda_free(args@)),
                plain ==> forall|k: int| 0 <= k < args.len() ==> lambda_free(#[trigger] args@[k]),
                Ty::views(params@).len() == params.len(),
                forall|k: int| 0 <= k < params.len() ==> #[trigger] Ty::views(params@)[k] == params@[k]@,
                plain ==> errors_view(self.errors@) == errors_view(old(self).errors@) + args_errs(
                    old(self).typing(),
                    args@.take(i as int),
                    Ty::views(params@),
                    skip as int,
                ),
            decreases args.len() - i,
        {
            let ghost before = errors_view(self.errors@);
            let param = &params[i + skip];
            let a_ty = self.infer(&args[i], Some(param));
            self.expect(&a_ty, param, args[i].span());
            proof {
                if plain {
                    let pv = Ty::views(params@);
                    let taken = args@.take(i + 1);
                    assert(taken.drop_last() =~= args@.take(i as int));
                    assert(taken.last() == args@[i as int]);
                    assert(self.typing() == old(self).typing());
                    assert(errors_view(self.errors@) =~= errors_view(old(self).errors@) + args_errs(
                        old(self).typing(),
                        taken,
                        pv,
                        skip as int,
                    ));
                }
            }
            i = i + 1;
        }
        proof {
            assert(args@.take(args.len() as int) =~= args@);
        }
    }

    /// The type of a call `function(args)`. A call of a name that is not
    /// bound, whose first argument is a struct, calls that struct's method
    /// of the name when there is one.
    pub fn infer_call(&mut self, function: &Expression, args: &Vec<Expression>, span: Span) -> (r: Ty)
        requires
            old(self).wf(),
            expr_wf(*function),
            exprs_wf(args@),
        ensures
            final(self).keeps_tables(old(self)),
            final(self).env.scope_maps() == old(self).env.scope_maps(),
            final(self).current_ret@ == old(self).current_ret@,
            expr_no_extern(*function) && exprs_no_extern(args@) ==> final(self).funcs == old(self).funcs && r@
                == call_ty(
                old(self).typing(),
                *function,
                args@,
                if args@.len() > 0 {
                    ty_of(old(self).typing(), args@[0], None)
                } else {
                    TyView::Error
                },
                ty_of(old(self).typing(), *function, None),
            ),
            expr_no_extern(*function) && exprs_no_extern(args@) && lambda_free(*function) && exprs_lambda_free(args@)
                ==> errors_view(final(self).errors@) == errors_view(old(self).errors@) + call_errs(
                old(self).typing(),
                *function,
                args@,
                span,
            ),
        decreases expr_size(*function) + exprs_size(args@), 1int,
    {
        proof {
            lemma_exprs_wf(args@);
            lemma_exprs_size(args@);
            lemma_exprs_no_extern(args@);
            lemma_exprs_lambda_free(args@);
        }
        let ghost g = self.typing();
        let ghost ev0 = errors_view(self.errors@);
        let ghost plain = expr_no_extern(*function) && exprs_no_extern(args@) && lambda_free(*function)
            && exprs_lambda_free(args@);
        let ghost goal = ev0 + call_errs(g, *function, args@, span);
        proof {
            assert(ev0 =~= ev0 + Seq::empty());
        }
        if let Expression::Identifier { name, .. } = function {
            if self.env.lookup(name.as_str()).is_none() && args.len() > 0 {
                let first_arg_ty = self.infer(&args[0], None);
                if let Ty::Struct(s_name) = &first_arg_ty {
                    let method_name = dotted(s_name, name);
                    if let Some(k) = find_entry(&self.funcs, &method_name) {
                        let sig = self.funcs[k].value.duplicate();
                        proof {
                            lemma_table_map(self.funcs@);
                            lemma_views(sig.params@);
                        }
                        if args.len() != sig.params.len() {
                            let e = TypeError::ArityMismatch {
                                name: name.clone(),
                                expected: sig.params.len(),
                                found: args.len(),
                                span,
                            };
                            proof {
                                lemma_errors_view_push(self.errors@, e);
                                if plain {
                                    assert(errors_view(self.errors@.push(e)) =~= goal);
                                }
                            }
                            self.errors.push(e);
                            return sig.ret;
                        }
                        self.check_args(args, &sig.params, 0);
                        proof {
                            if plain {
                                assert(errors_view(self.errors@) =~= goal);
                            }
                        }
                        return sig.ret;
                    }
                }
            }
        }
        let ghost ev1 = errors_view(self.errors@);
        let ghost rest = match function {
            Expression::Identifier { name, .. } => if lookup_in(g.scopes, name@) is None && args@.len() > 0 {
                errs_of(g, args@[0], None)
            } else {
                Seq::empty()
            },
            _ => Seq::empty(),
        };
        proof {
            if plain {
                assert(ev1 == ev0 + rest);
            }
        }
        let callee = self.infer(function, None);
        let ghost ev2 = errors_view(self.errors@);
        match callee {
            Ty::Fn { params, ret } => {
                proof {
                    lemma_views(params@);
                }
                if args.len() != params.len() {
                    let fname = match function {
                        Expression::Identifier { name: n, .. } => n.clone(),
                        _ => string_from("<function value>"),
                    };
                    let e = TypeError::ArityMismatch { name: fname, expected: params.len(), found: args.len(), span };
                    proof {
                        lemma_errors_view_push(self.errors@, e);
                        if plain {
                            assert(errors_view(self.errors@.push(e)) =~= goal);
                        }
                    }
                    self.errors.push(e);
                    return *ret;
                }
                self.check_args(args, &params, 0);
                proof {
                    if plain {
                        assert(errors_view(self.errors@) =~= goal);
                    }
                }
                *ret
            },
            Ty::Error => {
                proof {
                    if plain {
                        assert(errors_view(self.errors@) =~= goal);
                    }
                }
                Ty::Error
            },
            _ => {
                let fname = match function {
                    Expression::Identifier { name: n, .. } => n.clone(),
                    _ => string_from("<function value>"),
                };
                let e = TypeError::NotCallable { name: fname, ty: callee, span };
                proof {
                    lemma_errors_view_push(self.errors@, e);
                    if plain {
                        assert(errors_view(self.errors@.push(e)) =~= goal);
                    }
                }
                self.errors.push(e);
                Ty::Error
            },
        }
    }

    /// The type of a lambda: its parameter types, taken from `expected_ty`
    /// where the lambda writes none, and its result type. Its body is
    /// checked in a scope of its own, with the lambda's result type as the
    /// type `return` must give.
    pub fn infer_lambda(
        &mut self,
        params: &Vec<FuncParam>,
        return_type: &Option<Type>,
        body: &Vec<Statement>,
        expected_ty: Option<&Ty>,
    ) -> (r: Ty)
        requires
            old(self).wf(),
            params_wf(params@),
            match *return_type {
                Some(t) => type_wf(t),
                None => true,
            },
            stmts_wf(body@),
        ensures
            final(self).keeps_tables(old(self)),
            final(self).env.scope_maps() == old(self).env.scope_maps(),
            final(self).current_ret@ == old(self).current_ret@,
            r@ == lambda_ty(params@, *return_type, expected_view(expected_ty)),
            stmts_no_extern(body@) ==> final(self).funcs == old(self).funcs,
        decreases stmts_size(body@), 5int,
    {
        proof {
            lemma_params_wf(params@);
            lemma_stmts_wf(body@);
            lemma_stmts_size(body@);
            lemma_stmts_no_extern(body@);
        }
        let ghost ev = expected_view(expected_ty);
        let (expected_params, expected_ret): (Option<&Vec<Ty>>, Option<&Ty>) = match expected_ty {
            Some(Ty::Fn { params: ep, ret: er }) => {
                proof {
                    lemma_views(ep@);
                }
                (Some(ep), Some(&**er))
            },
            _ => (None, None),
        };
        let mut param_tys: Vec<Ty> = Vec::new();
        let mut i: usize = 0;
        while i < params.len()
            invariant
                i <= params.len(),
                self.keeps_tables(old(self)),
                self.env == old(self).env,
                self.current_ret == old(self).current_ret,
                self.funcs == old(self).funcs,
                param_tys.len() == i,
                forall|k: int| 0 <= k < params.len() ==> type_wf(#[trigger] params@[k].param_type),
                forall|k: int| 0 <= k < i ==> (#[trigger] param_tys@[k])@ == lambda_param_ty(params@[k], k, ev),
                match expected_params {
                    Some(ep) => ev matches Some(TyView::Fn { params: vp, .. }) && vp.len() == ep.len() && forall|m: int|
                        0 <= m < ep.len() ==> vp[m] == (#[trigger] ep@[m])@,
                    None => !(ev matches Some(TyView::Fn { .. })),
                },
            decreases params.len() - i,
        {
            let mut ty = self.resolve(&params[i].param_type);
            if matches!(ty, Ty::Infer) {
                let from_expected = match expected_params {
                    Some(ep) => if i < ep.len() {
                        Some(ep[i].duplicate())
                    } else {
                        None
                    },
                    None => None,
                };
                match from_expected {
                    Some(t) => {
                        ty = t;
                    },
                    None => {
                        self.errors.push(
                            TypeError::Unsupported {
                                desc: string_from(
                                    "Cannot infer type for parameter (try to pass lambda directly to a typed function)",
                                ),
                                span: params[i].span,
                            },
                        );
                        ty = Ty::Error;
                    },
                }
            }
            param_tys.push(ty);
            i = i + 1;
        }
        let ghost pts = param_tys@;
        let ret = match return_type {
            Some(t) => self.resolve(t),
            None => match expected_ret {
                Some(t) => t.duplicate(),
                None => Ty::Unit,
            },
        };
        let saved_ret = self.current_ret.duplicate();
        self.current_ret = ret.duplicate();
        let ghost scopes0 = self.env.scope_maps();
        self.env.push();
        let mut j: usize = 0;
        while j < params.len()
            invariant
                j <= params.len(),
                param_tys.len() == params.len(),
                param_tys@ == pts,
                self.keeps_tables(old(self)),
                self.funcs == old(self).funcs,
                self.env.scope_maps().len() == scopes0.len() + 1,
                self.env.scope_maps().take(scopes0.len() as int) == scopes0,
            decreases params.len() - j,
        {
            self.defined(params[j].name.clone(), param_tys[j].duplicate(), BindingKind::Var, params[j].span);
            j = j + 1;
        }
        let mut k: usize = 0;
        while k < body.len()
            invariant
                k <= body.len(),
                self.keeps_tables(old(self)),
                self.env.scope_maps().len() == scopes0.len() + 1,
                self.env.scope_maps().take(scopes0.len() as int) == scopes0,
                forall|x: int| 0 <= x < body.len() ==> stmt_wf(#[trigger] body@[x]),
                forall|x: int| 0 <= x < body.len() ==> stmt_size(#[trigger] body@[x]) <= stmts_size(body@),
                stmts_no_extern(body@) ==> forall|x: int| 0 <= x < body.len() ==> stmt_no_extern(#[trigger] body@[x]),
                stmts_no_extern(body@) ==> self.funcs == old(self).funcs,
            decreases body.len() - k,
        {
            self.check_statement(&body[k]);
            k = k + 1;
        }
        self.env.pop();
        proof {
            assert(self.env.scope_maps() =~= scopes0);
        }
        self.current_ret = saved_ret;
        proof {
            lemma_views(param_tys@);
            assert(Ty::views(param_tys@) =~= Seq::new(
                params.len() as nat,
                |x: int| lambda_param_ty(params@[x], x, ev),
            ));
        }
        Ty::Fn { params: param_tys, ret: Box::new(ret) }
    }

    /// The type of a struct literal: the struct, when it is declared and no
    /// field value has an error type.
    pub fn infer_struct_literal(
        &mut self,
        name: &String,
        fields: &Vec<crate::parser::expression::StructLiteralField>,
        span: Span,
    ) -> (r: Ty)
        requires
            old(self).wf(),
            crate::parser::shape::fields_wf(fields@),
        ensures
            final(self).keeps_tables(old(self)),
            final(self).env.scope_maps() == old(self).env.scope_maps(),
            final(self).current_ret@ == old(self).current_ret@,
            !old(self).structs_map().contains_key(name@) ==> r@ == TyView::Error && final(self).errors@
                == old(self).errors@.push((TypeError::UnknownName { name: *name, span })),
            old(self).structs_map().contains_key(name@) ==> (r@ == TyView::Struct(name@) || r@ == TyView::Error),
            fields_no_extern(fields@) ==> final(self).funcs == old(self).funcs && r@ == if old(self).structs_map().contains_key(
                name@,
            ) && !fields_err(old(self).typing(), fields@) {
                TyView::Struct(name@)
            } else {
                TyView::Error
            },
            fields_no_extern(fields@) && fields_lambda_free(fields@) ==> errors_view(final(self).errors@)
                == errors_view(old(self).errors@) + struct_literal_errs(old(self).typing(), name@, fields@, span),
        decreases crate::parser::shape::fields_size(fields@), 1int,
    {
        proof {
            crate::parser::shape::lemma_fields_wf(fields@);
            crate::parser::shape::lemma_fields_size(fields@);
            lemma_fields_no_extern(fields@);
            lemma_fields_err(old(self).typing(), fields@);
        }
        let ghost g = self.typing();
        let ghost ev0 = errors_view(self.errors@);
        let ghost plain = fields_no_extern(fields@) && fields_lambda_free(fields@);
        proof {
            lemma_fields_lambda_free(fields@);
            assert(fields@.take(0) =~= Seq::<crate::parser::expression::StructLiteralField>::empty());
            assert(ev0 =~= ev0 + Seq::empty());
        }
        if find_entry(&self.structs, name).is_none() {
            let e = TypeError::UnknownName { name: name.clone(), span };
            proof {
                lemma_errors_view_push(self.errors@, e);
            }
            self.errors.push(e);
            return Ty::Error;
        }
        if fields.len() == 0 {
            return Ty::Struct(name.clone());
        }
        let mut i: usize = 0;
        while i < fields.len()
            invariant
                i <= fields.len(),
                old(self).structs_map().contains_key(name@),
                self.keeps_tables(old(self)),
                self.env.scope_maps() == old(self).env.scope_maps(),
                self.current_ret@ == old(self).current_ret@,
                forall|k: int| 0 <= k < fields.len() ==> expr_wf(*(#[trigger] fields@[k]).field_val),
                forall|k: int| 0 <= k < fields.len() ==> expr_size(*(#[trigger] fields@[k]).field_val)
                    <= crate::parser::shape::fields_size(fields@),
                fields_no_extern(fields@) ==> forall|k: int| 0 <= k < fields.len() ==> expr_no_extern(
                    *(#[trigger] fields@[k]).field_val,
                ),
                fields_no_extern(fields@) ==> self.funcs == old(self).funcs,
                plain == (fields_no_extern(fields@) && fields_lambda_free(fields@)),
                g == old(self).typing(),
                ev0 == errors_view(old(self).errors@),
                plain ==> forall|k: int| 0 <= k < fields.len() ==> lambda_free(*(#[trigger] fields@[k]).field_val),
                plain ==> !fields_err(g, fields@.take(i as int)),
                plain ==> errors_view(self.errors@) == ev0 + fields_errs(g, fields@.take(i as int)),
                fields_no_extern(fields@) ==> forall|k: int| 0 <= k < i ==> !(ty_of(
                    old(self).typing(),
                    *(#[trigger] fields@[k]).field_val,
                    None,
                ) is Error),
            decreases fields.len() - i,
        {
            let t = self.infer(&fields[i].field_val, None);
            proof {
                if plain {
                    let taken = fields@.take(i + 1);
                    assert(taken.drop_last() =~= fields@.take(i as int));
                    assert(taken.last() == fields@[i as int]);
                    assert(self.typing() == g);
                    assert(errors_view(self.errors@) =~= ev0 + fields_errs(g, taken));
                }
            }
            if matches!(t, Ty::Error) {
                proof {
                    if plain {
                        let taken = fields@.take(i + 1);
                        assert(taken.drop_last() =~= fields@.take(i as int));
                        assert(fields_err(g, taken));
                        lemma_fields_errs_stop(g, fields@, i + 1);
                    }
                }
                proof {
                    lemma_fields_err(old(self).typing(), fields@);
                    if fields_no_extern(fields@) {
                        assert(self.typing() == old(self).typing());
                        assert(ty_of(old(self).typing(), *fields@[i as int].field_val, None) is Error);
                    }
                }
                return Ty::Error;
            }
            i = i + 1;
        }
        proof {
            lemma_fields_err(old(self).typing(), fields@);
            assert(fields@.take(fields.len() as int) =~= fields@);
        }
        Ty::Struct(name.clone())
    }

    /// The index of the first field of `sig` named `name`.
    pub fn find_field(sig: &StructSig, name: &String) -> (r: Option<usize>)
        ensures
            r matches Some(i) ==> i < sig.fields.len() && sig.fields@[i as int].name@ == name@ && forall|k: int|
                0 <= k < i ==> sig.fields@[k].name@ != name@,
            r is None ==> forall|k: int| 0 <= k < sig.fields.len() ==> sig.fields@[k].name@ != name@,
    {
        let mut i: usize = 0;
        while i < sig.fields.len()
            invariant
                i <= sig.fields.len(),
                forall|k: int| 0 <= k < i ==> sig.fields@[k].name@ != name@,
            decreases sig.fields.len() - i,
        {
            if sig.fields[i].name == *name {
                return Some(i);
            }
            i = i + 1;
        }
        None
    }

    /// The type of `object.name`: the field's declared type.
    pub fn infer_field(&mut self, object: &Expression, name: &String, span: Span) -> (r: Ty)
        requires
            old(self).wf(),
            expr_wf(*object),
        ensures
            final(self).keeps_tables(old(self)),
            final(self).env.scope_maps() == old(self).env.scope_maps(),
            final(self).current_ret@ == old(self).current_ret@,
            expr_no_extern(*object) ==> final(self).funcs == old(self).funcs && r@ == field_ty(
                old(self).typing(),
                ty_of(old(self).typing(), *object, None),
                name@,
            ),
            expr_no_extern(*object) && lambda_free(*object) ==> errors_view(final(self).errors@) == errors_view(
                old(self).errors@,
            ) + errs_of(old(self).typing(), *object, None) + field_errs(
                old(self).typing(),
                ty_of(old(self).typing(), *object, None),
                name@,
                span,
            ),
        decreases expr_size(*object), 1int,
    {
        let ghost g = self.typing();
        let ghost ev0 = errors_view(self.errors@);
        let obj_ty = self.infer(object, None);
        let ghost ev1 = errors_view(self.errors@);
        proof {
            assert(ev1 =~= ev1 + Seq::empty());
        }
        let r = match obj_ty {
            Ty::Struct(s) => match find_entry(&self.structs, &s) {
                Some(k) => match Checker::find_field(&self.structs[k].value, name) {
                    Some(f) => {
                        proof {
                            let fv = self.structs_map()[s@];
                            assert(fv == field_views(self.structs@[k as int].value.fields@));
                            lemma_first_field(fv, name@);
                            assert(fv[f as int].name == name@);
                            match first_field(fv, name@) {
                                Some(j) => {
                                    if j < f {
                                        assert(fv[j].name == self.structs@[k as int].value.fields@[j].name@);
                                    }
                                    if f < j {
                                        assert(fv[f as int].name == name@);
                                    }
                                    assert(j == f);
                                },
                                None => {
                                    assert(fv[f as int].name == name@);
                                },
                            }
                        }
                        self.structs[k].value.fields[f].ty.duplicate()
                    },
                    None => {
                        proof {
                            let fv = self.structs_map()[s@];
                            lemma_first_field(fv, name@);
                            if first_field(fv, name@) is Some {
                                let j = first_field(fv, name@)->0;
                                assert(fv[j].name == self.structs@[k as int].value.fields@[j].name@);
                            }
                        }
                        let e = TypeError::UnknownField { struct_name: s, field: name.clone(), span };
                        proof {
                            lemma_errors_view_push(self.errors@, e);
                        }
                        self.errors.push(e);
                        Ty::Error
                    },
                },
                None => {
                    let e = TypeError::UnknownName { name: name.clone(), span };
                    proof {
                        lemma_errors_view_push(self.errors@, e);
                    }
                    self.errors.push(e);
                    Ty::Error
                },
            },
            Ty::Error => Ty::Error,
            _ => {
                let e = TypeError::NoFields { ty: obj_ty, span };
                proof {
                    lemma_errors_view_push(self.errors@, e);
                }
                self.errors.push(e);
                Ty::Error
            },
        };
        proof {
            if expr_no_extern(*object) && lambda_free(*object) {
                assert(errors_view(self.errors@) =~= ev0 + errs_of(g, *object, None) + field_errs(
                    g,
                    ty_of(g, *object, None),
                    name@,
                    span,
                ));
            }
        }
        r
    }

    /// The type of `object.name(args)`: a static call `S.m(..)` of a
    /// struct's method, a call of a global function through an unbound
    /// name, or a method call on a value, whose first parameter it fills.
    pub fn infer_method_call(&mut self, object: &Expression, name: &String, args: &Vec<Expression>, span: Span) -> (r: Ty)
        requires
            old(self).wf(),
            expr_wf(*object),
            exprs_wf(args@),
        ensures
            final(self).keeps_tables(old(self)),
            final(self).env.scope_maps() == old(self).env.scope_maps(),
            final(self).current_ret@ == old(self).current_ret@,
            expr_no_extern(*object) && exprs_no_extern(args@) ==> final(self).funcs == old(self).funcs && r@
                == method_call_ty(old(self).typing(), *object, name@, ty_of(old(self).typing(), *object, None)),
            expr_no_extern(*object) && exprs_no_extern(args@) && lambda_free(*object) && exprs_lambda_free(args@)
                ==> errors_view(final(self).errors@) == errors_view(old(self).errors@) + method_call_errs(
                old(self).typing(),
                *object,
                name@,
                args@,
                span,
            ),
        decreases expr_size(*object) + exprs_size(args@), 1int,
    {
        proof {
            lemma_exprs_lambda_free(args@);
        }
        let ghost g = self.typing();
        let ghost ev0 = errors_view(self.errors@);
        let ghost plain = expr_no_extern(*object) && exprs_no_extern(args@) && lambda_free(*object)
            && exprs_lambda_free(args@);
        let ghost goal = ev0 + method_call_errs(g, *object, name@, args@, span);
        let mut found_sig: Option<FnSig> = None;
        let mut is_static = false;
        let mut obj_ty = Ty::Error;
        if let Expression::Identifier { name: obj_name, .. } = object {
            if find_entry(&self.structs, obj_name).is_some() {
                let sig_name = dotted(obj_name, name);
                found_sig = match find_entry(&self.funcs, &sig_name) {
                    Some(k) => Some(self.funcs[k].value.duplicate()),
                    None => None,
                };
                is_static = true;
            } else if self.env.lookup(obj_name.as_str()).is_none() {
                found_sig = match find_entry(&self.funcs, name) {
                    Some(k) => Some(self.funcs[k].value.duplicate()),
                    None => None,
                };
                if found_sig.is_some() {
                    is_static = true;
                }
            }
        }
        let ghost ev1 = errors_view(self.errors@);
        if !is_static {
            obj_ty = self.infer(object, None);
            proof {
                ev1 = errors_view(self.errors@);
                if plain {
                    assert(ev1 == ev0 + errs_of(g, *object, None));
                    assert(ev1 =~= ev1 + Seq::empty());
                }
            }
            let sig_name = match &obj_ty {
                Ty::Struct(s) => dotted(s, name),
                Ty::String | Ty::Int | Ty::Float | Ty::Bool => name.clone(),
                Ty::Error => {
                    proof {
                        if plain {
                            assert(errors_view(self.errors@) =~= goal);
                        }
                    }
                    return Ty::Error;
                },
                _ => {
                    let e = TypeError::NoSuchMethod { ty: obj_ty.duplicate(), method: name.clone(), span };
                    proof {
                        lemma_errors_view_push(self.errors@, e);
                        if plain {
                            assert(errors_view(self.errors@.push(e)) =~= goal);
                        }
                    }
                    self.errors.push(e);
                    return Ty::Error;
                },
            };
            found_sig = match find_entry(&self.funcs, &sig_name) {
                Some(k) => Some(self.funcs[k].value.duplicate()),
                None => match find_entry(&self.funcs, name) {
                    Some(k) => {
                        proof {
                            lemma_views(self.funcs@[k as int].value.params@);
                        }
                        if self.funcs[k].value.params.len() > 0 && ty_eq(&self.funcs[k].value.params[0], &obj_ty) {
                            Some(self.funcs[k].value.duplicate())
                        } else {
                            None
                        }
                    },
                    None => None,
                },
            };
        }
        match found_sig {
            Some(sig) => {
                proof {
                    lemma_views(sig.params@);
                }
                let skip: usize = if is_static {
                    0
                } else {
                    if sig.params.len() == 0 {
                        let e = TypeError::ArityMismatch { name: name.clone(), expected: 1, found: 0, span };
                        proof {
                            lemma_errors_view_push(self.errors@, e);
                            if plain {
                                assert(errors_view(self.errors@.push(e)) =~= goal);
                            }
                        }
                        self.errors.push(e);
                        return Ty::Error;
                    }
                    self.expect(&obj_ty, &sig.params[0], object.span());
                    1
                };
                let ghost ev2 = errors_view(self.errors@);
                let expected_len = sig.params.len() - skip;
                if args.len() != expected_len {
                    let e = TypeError::ArityMismatch { name: name.clone(), expected: expected_len, found: args.len(), span };
                    proof {
                        lemma_errors_view_push(self.errors@, e);
                        if plain {
                            assert(errors_view(self.errors@.push(e)) =~= goal);
                        }
                    }
                    self.errors.push(e);
                    return sig.ret;
                }
                self.check_args(args, &sig.params, skip);
                proof {
                    if plain {
                        assert(errors_view(self.errors@) =~= goal);
                    }
                }
                sig.ret
            },
            None => {
                if is_static {
                    let e = TypeError::UnknownName { name: name.clone(), span };
                    proof {
                        lemma_errors_view_push(self.errors@, e);
                        if plain {
                            assert(errors_view(self.errors@.push(e)) =~= goal);
                        }
                    }
                    self.errors.push(e);
                } else {
                    let e = TypeError::NoSuchMethod { ty: obj_ty, method: name.clone(), span };
                    proof {
                        lemma_errors_view_push(self.errors@, e);
                        if plain {
                            assert(errors_view(self.errors@.push(e)) =~= goal);
                        }
                    }
                    self.errors.push(e);
                }
                Ty::Error
            },
        }
    }

    /// Checks a statement in the current scope, binding the names it declares there.
    pub fn check_statement(&mut self, stmt: &Statement)
        requires
            old(self).wf(),
            stmt_wf(*stmt),
        ensures
            final(self).keeps_tables(old(self)),
            final(self).keeps_outer_scopes(old(self)),
            (stmt is Break || stmt is Continue) ==> final(self).errors@ == if old(self).in_loop {
                old(self).errors@
            } else {
                old(self).errors@.push(
                    (TypeError::OutsideLoop {
                        kind: if stmt is Break {
                            LoopControlKind::Break
                        } else {
                            LoopControlKind::Continue
                        },
                        span: stmt.spec_span(),
                    }),
                )
            },
            (stmt is Break || stmt is Continue) ==> final(self).env == old(self).env,
            stmt matches Statement::Var { name, .. } ==> final(self).env.scope_maps().last().contains_key(name@),
            stmt matches Statement::Let { name, .. } ==> final(self).env.scope_maps().last().contains_key(name@),
            stmt matches Statement::Const { name, .. } ==> final(self).env.scope_maps().last().contains_key(name@),
            *stmt matches Statement::Var { name, value, .. } ==> (expr_no_extern(value) ==> final(self).env.scope_maps()
                == bound(
                old(self).env.scope_maps(),
                name@,
                EntityView { ty: ty_of(old(self).typing(), value, None), kind: BindingKind::Var, span: stmt.spec_span() },
            )),
            *stmt matches Statement::Let { name, value, .. } ==> (expr_no_extern(value) ==> final(self).env.scope_maps()
                == bound(
                old(self).env.scope_maps(),
                name@,
                EntityView { ty: ty_of(old(self).typing(), value, None), kind: BindingKind::Let, span: stmt.spec_span() },
            )),
            *stmt matches Statement::Const { name, value, .. } ==> (expr_no_extern(value) ==> final(self).env.scope_maps()
                == bound(
                old(self).env.scope_maps(),
                name@,
                EntityView {
                    ty: ty_of(old(self).typing(), value, None),
                    kind: BindingKind::Const,
                    span: stmt.spec_span(),
                },
            )),
            stmt_no_extern(*stmt) ==> final(self).funcs == old(self).funcs,
            *stmt matches Statement::Var { name, value, .. } ==> (expr_no_extern(value) && lambda_free(value)
                ==> errors_view(final(self).errors@) == errors_view(old(self).errors@) + errs_of(
                old(self).typing(),
                value,
                None,
            ) + binding_errs(old(self).env.scope_maps(), name@, stmt.spec_span())),
            *stmt matches Statement::Let { name, value, .. } ==> (expr_no_extern(value) && lambda_free(value)
                ==> errors_view(final(self).errors@) == errors_view(old(self).errors@) + errs_of(
                old(self).typing(),
                value,
                None,
            ) + binding_errs(old(self).env.scope_maps(), name@, stmt.spec_span())),
            *stmt matches Statement::Const { name, value, .. } ==> (expr_no_extern(value) && lambda_free(value)
                ==> errors_view(final(self).errors@) == errors_view(old(self).errors@) + errs_of(
                old(self).typing(),
                value,
                None,
            ) + binding_errs(old(self).env.scope_maps(), name@, stmt.spec_span())),
            *stmt matches Statement::Return { value: Some(v), .. } ==> (expr_no_extern(v) && lambda_free(v)
                ==> errors_view(final(self).errors@) == errors_view(old(self).errors@) + errs_of(
                old(self).typing(),
                v,
                None,
            ) + expect_errs(ty_of(old(self).typing(), v, None), old(self).current_ret@, stmt.spec_span())),
            *stmt matches Statement::Return { value: None, .. } ==> errors_view(final(self).errors@) == errors_view(
                old(self).errors@,
            ) + expect_errs(TyView::Unit, old(self).current_ret@, stmt.spec_span()),
            *stmt matches Statement::Expression { expression, .. } ==> (!is_assignment_expr(expression)
                && expr_no_extern(expression) && lambda_free(expression) ==> errors_view(final(self).errors@)
                == errors_view(old(self).errors@) + errs_of(old(self).typing(), expression, None)),
            simple_stmt(*stmt) ==> errors_view(final(self).errors@) == errors_view(old(self).errors@) + stmt_errs(
                old(self).typing(),
                old(self).current_ret@,
                *stmt,
            ),
            simple_stmt(*stmt) ==> final(self).typing() == stmt_typing(old(self).typing(), *stmt),
            simple_stmt(*stmt) ==> final(self).current_ret@ == old(self).current_ret@,
        decreases stmt_size(*stmt), 3int,
    {
        let ghost ev0 = errors_view(self.errors@);
        proof {
            assert(ev0 =~= ev0 + Seq::empty());
        }
        match stmt {
            Statement::Var { name, value, .. } => {
                let ty = self.infer(value, None);
                let ghost prev = self.env.scope_maps();
                let ghost mid = self.errors@;
                self.defined(name.clone(), ty, BindingKind::Var, stmt.span());
                proof {
                    let n = prev.len();
                    if n > 0 {
                        assert(self.env.scope_maps().take(n - 1) =~= prev.take(n - 1));
                    }
                    if self.errors@.len() > mid.len() {
                        lemma_errors_view_push(mid, self.errors@.last());
                        assert(self.errors@ == mid.push(self.errors@.last()));
                    }
                    assert(errors_view(self.errors@) =~= errors_view(mid) + binding_errs(prev, name@, stmt.spec_span()));
                }
            },
            Statement::Let { name, value, .. } => {
                let ty = self.infer(value, None);
                let ghost prev = self.env.scope_maps();
                let ghost mid = self.errors@;
                self.defined(name.clone(), ty, BindingKind::Let, stmt.span());
                proof {
                    let n = prev.len();
                    if n > 0 {
                        assert(self.env.scope_maps().take(n - 1) =~= prev.take(n - 1));
                    }
                    if self.errors@.len() > mid.len() {
                        lemma_errors_view_push(mid, self.errors@.last());
                        assert(self.errors@ == mid.push(self.errors@.last()));
                    }
                    assert(errors_view(self.errors@) =~= errors_view(mid) + binding_errs(prev, name@, stmt.spec_span()));
                }
            },
            Statement::Const { name, value, .. } => {
                let ty = self.infer(value, None);
                let ghost prev = self.env.scope_maps();
                let ghost mid = self.errors@;
                self.defined(name.clone(), ty, BindingKind::Const, stmt.span());
                proof {
                    let n = prev.len();
                    if n > 0 {
                        assert(self.env.scope_maps().take(n - 1) =~= prev.take(n - 1));
                    }
                    if self.errors@.len() > mid.len() {
                        lemma_errors_view_push(mid, self.errors@.last());
                        assert(self.errors@ == mid.push(self.errors@.last()));
                    }
                    assert(errors_view(self.errors@) =~= errors_view(mid) + binding_errs(prev, name@, stmt.spec_span()));
                }
            },
            Statement::If(if_stmt) => {
                proof {
                    crate::parser::shape::lemma_else_ifs_wf(if_stmt.else_if@);
                    crate::parser::shape::lemma_else_ifs_size(if_stmt.else_if@);
                    lemma_else_ifs_no_extern(if_stmt.else_if@);
                }
                let cond_ty = self.infer(&if_stmt.condition, None);
                self.expect(&cond_ty, &Ty::Bool, stmt.span());
                self.check_block(&if_stmt.then_block);
                let mut i: usize = 0;
                while i < if_stmt.else_if.len()
                    invariant
                        i <= if_stmt.else_if.len(),
                        self.keeps_tables(old(self)),
                        self.env.scope_maps() == old(self).env.scope_maps(),
                        forall|k: int| 0 <= k < if_stmt.else_if.len() ==> expr_wf((#[trigger] if_stmt.else_if@[k]).condition)
                            && stmts_wf(if_stmt.else_if@[k].block@),
                        forall|k: int| 0 <= k < if_stmt.else_if.len() ==> expr_size((#[trigger] if_stmt.else_if@[k]).condition)
                            + stmts_size(if_stmt.else_if@[k].block@) <= crate::parser::shape::else_ifs_size(if_stmt.else_if@),
                        crate::parser::shape::else_ifs_size(if_stmt.else_if@) < stmt_size(*stmt),
                        stmt_no_extern(*stmt) ==> self.funcs == old(self).funcs,
                        stmt_no_extern(*stmt) ==> forall|k: int| 0 <= k < if_stmt.else_if.len() ==> expr_no_extern(
                            (#[trigger] if_stmt.else_if@[k]).condition,
                        ) && stmts_no_extern(if_stmt.else_if@[k].block@),
                    decreases if_stmt.else_if.len() - i,
                {
                    let c_ty = self.infer(&if_stmt.else_if[i].condition, None);
                    self.expect(&c_ty, &Ty::Bool, stmt.span());
                    self.check_block(&if_stmt.else_if[i].block);
                    i = i + 1;
                }
                if if_stmt.else_block.len() > 0 {
                    self.check_block(&if_stmt.else_block);
                }
            },
            Statement::While { .. } | Statement::ForCounter { .. } | Statement::ForRange { .. } => {
                self.check_for_stmt(stmt);
            },
            Statement::Break { .. } => {
                if !self.in_loop {
                    self.errors.push(TypeError::OutsideLoop { kind: LoopControlKind::Break, span: stmt.span() });
                }
            },
            Statement::Continue { .. } => {
                if !self.in_loop {
                    self.errors.push(TypeError::OutsideLoop { kind: LoopControlKind::Continue, span: stmt.span() });
                }
            },
            Statement::Return { value, .. } => {
                let ty = match value {
                    Some(v) => self.infer(v, None),
                    None => Ty::Unit,
                };
                let ghost mid = errors_view(self.errors@);
                proof {
                    if value is None {
                        assert(mid =~= ev0 + Seq::empty());
                    }
                }
                let cur = self.current_ret.duplicate();
                self.expect(&ty, &cur, stmt.span());
            },
            Statement::ExternFunc { name, params, span, .. } => {
                proof {
                    lemma_params_wf(params@);
                }
                let mut ps: Vec<Ty> = Vec::new();
                let mut i: usize = 0;
                while i < params.len()
                    invariant
                        i <= params.len(),
                        *self == *old(self),
                        forall|k: int| 0 <= k < params.len() ==> type_wf(#[trigger] params@[k].param_type),
                    decreases params.len() - i,
                {
                    let t = self.resolve(&params[i].param_type);
                    ps.push(t);
                    i = i + 1;
                }
                let sig = FnSig { params: ps, ret: Ty::Unit, span: *span };
                let ghost before = self.funcs_map();
                insert_entry(&mut self.funcs, name.clone(), sig);
                assert(before.dom().subset_of(self.funcs_map().dom()));
            },
            Statement::Expression { expression, .. } => {
                match expression {
                    Expression::Infix { left, operator, right, .. } => {
                        if is_assignment(operator) {
                            assert(stmt_size(*stmt) == 1 + expr_size(*expression));
                            assert(expr_size(*expression) == 1 + expr_size(**left) + expr_size(**right));
                            assert(expr_wf(*expression));
                            assert(expr_wf(**right));
                            assert(stmt_no_extern(*stmt) ==> expr_no_extern(*expression));
                            assert(stmt_no_extern(*stmt) ==> expr_no_extern(**left) && expr_no_extern(**right));
                            match &**left {
                                Expression::Identifier { name, .. } => {
                                    self.check_assignment(name.as_str(), right);
                                },
                                Expression::Field { object, name: field_name, span } => {
                                    assert(expr_size(**left) == 1 + expr_size(**object));
                                    assert(expr_wf(**left));
                                    assert(expr_wf(**object));
                                    assert(stmt_no_extern(*stmt) ==> expr_no_extern(**object));
                                    self.check_field_assignment(object, field_name.as_str(), right, *span);
                                },
                                _ => {
                                    self.errors.push(
                                        TypeError::Unsupported {
                                            desc: string_from("Invalid assignment target (non as l-value)"),
                                            span: left.span(),
                                        },
                                    );
                                },
                            }
                        } else {
                            let _ = self.infer(expression, None);
                        }
                    },
                    _ => {
                        let _ = self.infer(expression, None);
                    },
                }
            },
            Statement::Struct { .. } => {
                self.check_struct(stmt);
            },
            Statement::Extend { methods, .. } => {
                proof {
                    lemma_stmts_wf(methods@);
                    lemma_stmts_size(methods@);
                    lemma_stmts_no_extern(methods@);
                }
                let mut i: usize = 0;
                while i < methods.len()
                    invariant
                        i <= methods.len(),
                        self.keeps_tables(old(self)),
                        self.env.scope_maps() == old(self).env.scope_maps(),
                        forall|k: int| 0 <= k < methods.len() ==> stmt_wf(#[trigger] methods@[k]),
                        forall|k: int| 0 <= k < methods.len() ==> stmt_size(#[trigger] methods@[k]) <= stmts_size(methods@),
                        stmts_size(methods@) < stmt_size(*stmt),
                        stmt_no_extern(*stmt) ==> self.funcs == old(self).funcs,
                        stmt_no_extern(*stmt) ==> forall|k: int| 0 <= k < methods.len() ==> stmt_no_extern(
                            #[trigger] methods@[k],
                        ),
                    decreases methods.len() - i,
                {
                    if matches!(methods[i], Statement::Func { .. }) {
                        self.check_fn(&methods[i]);
                    }
                    i = i + 1;
                }
            },
            Statement::Func { .. } => {},
        }
    }

    /// Checks a `while` or `for` loop in a scope of its own, with `break`
    /// and `continue` allowed; after it they are not allowed any more.
    pub fn check_for_stmt(&mut self, stmt: &Statement)
        requires
            old(self).wf(),
            stmt_wf(*stmt),
        ensures
            final(self).keeps_tables(old(self)),
            final(self).env.scope_maps() == old(self).env.scope_maps(),
            !final(self).in_loop,
            stmt_no_extern(*stmt) ==> final(self).funcs == old(self).funcs,
            *stmt matches Statement::While { condition, body, .. } ==> (expr_no_extern(condition) && lambda_free(
                condition,
            ) && simple_block(body@) ==> errors_view(final(self).errors@) == errors_view(old(self).errors@) + errs_of(
                scoped(old(self).typing()),
                condition,
                None,
            ) + expect_errs(ty_of(scoped(old(self).typing()), condition, None), TyView::Bool, stmt.spec_span())
                + block_errs(scoped(scoped(old(self).typing())), old(self).current_ret@, body@)),
        decreases stmt_size(*stmt), 2int,
    {
        let ghost g1 = scoped(self.typing());
        let ghost ev0 = errors_view(self.errors@);
        let ghost scopes0 = self.env.scope_maps();
        self.env.push();
        self.in_loop = true;
        match stmt {
            Statement::While { condition, body, .. } => {
                let cond_ty = self.infer(condition, None);
                self.expect(&cond_ty, &Ty::Bool, stmt.span());
                self.check_block(body);
                proof {
                    if expr_no_extern(*condition) && lambda_free(*condition) && simple_block(body@) {
                        assert(errors_view(self.errors@) =~= ev0 + errs_of(g1, *condition, None) + expect_errs(
                            ty_of(g1, *condition, None),
                            TyView::Bool,
                            stmt.spec_span(),
                        ) + block_errs(scoped(g1), old(self).current_ret@, body@));
                    }
                }
            },
            Statement::ForRange { variable, iterable, body, span } => {
                let _iter_ty = self.infer(iterable, None);
                if let Expression::Range { end, .. } = iterable {
                    if end.is_none() {
                        self.errors.push(
                            TypeError::Unsupported {
                                desc: string_from("Cannot iterate over an open-ended range in for-loop"),
                                span: *span,
                            },
                        );
                    }
                }
                self.defined(variable.clone(), Ty::Int, BindingKind::Var, stmt.span());
                self.check_block(body);
            },
            Statement::ForCounter { init, condition, post, body, .. } => {
                self.check_statement(init);
                let cond_ty = self.infer(condition, None);
                self.expect(&cond_ty, &Ty::Bool, stmt.span());
                let _post_ty = self.infer(post, None);
                self.check_block(body);
            },
            _ => {},
        }
        self.env.pop();
        proof {
            assert(self.env.scope_maps() =~= scopes0);
        }
        self.in_loop = false;
    }

    /// Checks the statements of a block in a scope of its own.
    pub fn check_block(&mut self, block: &Vec<Statement>)
        requires
            old(self).wf(),
            stmts_wf(block@),
        ensures
            final(self).keeps_tables(old(self)),
            final(self).env.scope_maps() == old(self).env.scope_maps(),
            stmts_no_extern(block@) ==> final(self).funcs == old(self).funcs,
            simple_block(block@) ==> errors_view(final(self).errors@) == errors_view(old(self).errors@) + block_errs(
                scoped(old(self).typing()),
                old(self).current_ret@,
                block@,
            ),
            simple_block(block@) ==> final(self).current_ret@ == old(self).current_ret@,
        decreases stmts_size(block@), 4int,
    {
        proof {
            lemma_stmts_wf(block@);
            lemma_stmts_size(block@);
            lemma_stmts_no_extern(block@);
        }
        let ghost g0 = scoped(self.typing());
        let ghost ret0 = self.current_ret@;
        let ghost ev0 = errors_view(self.errors@);
        let ghost sb = simple_block(block@);
        let ghost scopes0 = self.env.scope_maps();
        self.env.push();
        proof {
            assert(block@.take(0) =~= Seq::<Statement>::empty());
            assert(ev0 =~= ev0 + Seq::empty());
        }
        let mut i: usize = 0;
        while i < block.len()
            invariant
                i <= block.len(),
                self.keeps_tables(old(self)),
                self.env.scope_maps().len() == scopes0.len() + 1,
                self.env.scope_maps().take(scopes0.len() as int) == scopes0,
                forall|k: int| 0 <= k < block.len() ==> stmt_wf(#[trigger] block@[k]),
                forall|k: int| 0 <= k < block.len() ==> stmt_size(#[trigger] block@[k]) <= stmts_size(block@),
                stmts_no_extern(block@) ==> forall|k: int| 0 <= k < block.len() ==> stmt_no_extern(#[trigger] block@[k]),
                stmts_no_extern(block@) ==> self.funcs == old(self).funcs,
                sb == simple_block(block@),
                sb ==> self.typing() == block_typing(g0, block@.take(i as int)),
                sb ==> self.current_ret@ == ret0,
                sb ==> errors_view(self.errors@) == ev0 + block_errs(g0, ret0, block@.take(i as int)),
            decreases block.len() - i,
        {
            proof {
                assert(block@.take(i + 1).drop_last() =~= block@.take(i as int));
                assert(block@.take(i + 1).last() == block@[i as int]);
                if sb {
                    assert(simple_stmt(block@[i as int]));
                }
            }
            let ghost before = errors_view(self.errors@);
            self.check_statement(&block[i]);
            proof {
                if sb {
                    assert(errors_view(self.errors@) =~= ev0 + block_errs(g0, ret0, block@.take(i + 1)));
                }
            }
            i = i + 1;
        }
        self.env.pop();
        proof {
            assert(self.env.scope_maps() =~= scopes0);
            assert(block@.take(block.len() as int) =~= block@);
        }
    }

    /// Checks a function in a scope of its own: its parameters bound there,
    /// its body, and that it returns on every path when it declares a
    /// result type.
    pub fn check_fn(&mut self, stmt: &Statement)
        requires
            old(self).wf(),
            stmt_wf(*stmt),
        ensures
            final(self).keeps_tables(old(self)),
            final(self).env.scope_maps() == old(self).env.scope_maps(),
            stmt_no_extern(*stmt) ==> final(self).funcs == old(self).funcs,
            !(stmt is Func) ==> final(self).errors@ == old(self).errors@,
            *stmt matches Statement::Func { params, return_type, body, .. } ==> (simple_block(body@) ==> {
                &&& errors_view(final(self).errors@) == errors_view(old(self).errors@) + params_errs(
                    scoped(old(self).typing()),
                    params@,
                ) + block_errs(
                    scoped(params_typing(scoped(old(self).typing()), params@)),
                    resolve_ret(return_type),
                    body@,
                ) + returns_errs(*stmt)
                &&& final(self).current_ret@ == resolve_ret(return_type)
            }),
        decreases stmt_size(*stmt), 2int,
    {
        let ghost g1 = scoped(self.typing());
        let ghost ev0 = errors_view(self.errors@);
        let ghost scopes0 = self.env.scope_maps();
        self.env.push();
        if let Statement::Func { params, return_type, body, .. } = stmt {
            proof {
                lemma_params_wf(params@);
                assert(params@.take(0) =~= Seq::<FuncParam>::empty());
                assert(ev0 =~= ev0 + Seq::empty());
            }
            self.current_ret = self.resolve_return(return_type);
            let mut i: usize = 0;
            while i < params.len()
                invariant
                    i <= params.len(),
                    self.keeps_tables(old(self)),
                    self.env.scope_maps().len() == scopes0.len() + 1,
                    self.env.scope_maps().take(scopes0.len() as int) == scopes0,
                    forall|k: int| 0 <= k < params.len() ==> type_wf(#[trigger] params@[k].param_type),
                    self.funcs == old(self).funcs,
                    self.current_ret@ == resolve_ret(*return_type),
                    self.typing() == params_typing(g1, params@.take(i as int)),
                    errors_view(self.errors@) == ev0 + params_errs(g1, params@.take(i as int)),
                decreases params.len() - i,
            {
                proof {
                    assert(params@.take(i + 1).drop_last() =~= params@.take(i as int));
                    assert(params@.take(i + 1).last() == params@[i as int]);
                }
                let ty = self.resolve(&params[i].param_type);
                let ghost before = *self;
                match self.env.define(params[i].name.clone(), ty, BindingKind::Param, &params[i].span) {
                    Err(e) => {
                        proof {
                            lemma_errors_view_push(self.errors@, e);
                        }
                        self.errors.push(e);
                    },
                    Ok(()) => {},
                }
                proof {
                    assert(errors_view(self.errors@) =~= ev0 + params_errs(g1, params@.take(i + 1)));
                }
                i = i + 1;
            }
            proof {
                assert(params@.take(params.len() as int) =~= params@);
            }
            self.check_block(body);
            self.check_returns(stmt);
            proof {
                if simple_block(body@) {
                    if self.errors@.len() > 0 && returns_errs(*stmt).len() > 0 {
                        lemma_errors_view_push(self.errors@.drop_last(), self.errors@.last());
                        assert(self.errors@ =~= self.errors@.drop_last().push(self.errors@.last()));
                    }
                }
            }
        }
        self.env.pop();
        proof {
            assert(self.env.scope_maps() =~= scopes0);
        }
    }

    /// Checks `name = value`: the name must be bound, by `var`, and the
    /// value must have its type.
    pub fn check_assignment(&mut self, name: &str, value_expr: &Expression)
        requires
            old(self).wf(),
            expr_wf(*value_expr),
        ensures
            final(self).keeps_tables(old(self)),
            final(self).env.scope_maps() == old(self).env.scope_maps(),
            match lookup_in(old(self).env.scope_maps(), name@) {
                None => final(self).errors@.len() == old(self).errors@.len() + 1
                    && final(self).errors@.drop_last() == old(self).errors@
                    && (final(self).errors@.last() matches TypeError::UnknownName { name: n, span: s } && n@ == name@
                    && s == value_expr.spec_span()),
                Some(e) => !e.kind.spec_is_mutable() ==> final(self).errors@.len() == old(self).errors@.len() + 1
                    && final(self).errors@.drop_last() == old(self).errors@
                    && (final(self).errors@.last() matches TypeError::AssignmentToImmutable {
                        name: n,
                        kind,
                        decl_span,
                        assign_span,
                    } && n@ == name@ && kind == e.kind && decl_span == e.span && assign_span
                        == value_expr.spec_span()),
            },
            expr_no_extern(*value_expr) ==> final(self).funcs == old(self).funcs,
            match lookup_in(old(self).env.scope_maps(), name@) {
                Some(e) => e.kind is Var && expr_no_extern(*value_expr) && lambda_free(*value_expr) ==> errors_view(
                    final(self).errors@,
                ) == errors_view(old(self).errors@) + errs_of(old(self).typing(), *value_expr, None) + expect_errs(
                    ty_of(old(self).typing(), *value_expr, None),
                    e.ty,
                    value_expr.spec_span(),
                ),
                None => true,
            },
        decreases expr_size(*value_expr), 1int,
    {
        let entity = match self.env.lookup(name) {
            Some(e) => e,
            None => {
                self.errors.push(TypeError::UnknownName { name: name.to_owned(), span: value_expr.span() });
                return;
            },
        };
        if !entity.kind.is_mutable() {
            self.errors.push(
                TypeError::AssignmentToImmutable {
                    name: name.to_owned(),
                    kind: entity.kind,
                    assign_span: value_expr.span(),
                    decl_span: entity.span,
                },
            );
            return;
        }
        let value_ty = self.infer(value_expr, None);
        self.expect(&value_ty, &entity.ty, value_expr.span());
    }

    /// Checks `object.field = value`: the object must not be an immutable
    /// name, must be a struct with that field, and the value must have the
    /// field's type.
    pub fn check_field_assignment(&mut self, object: &Expression, field_name: &str, value_expr: &Expression, span: Span)
        requires
            old(self).wf(),
            expr_wf(*object),
            expr_wf(*value_expr),
        ensures
            final(self).keeps_tables(old(self)),
            final(self).env.scope_maps() == old(self).env.scope_maps(),
            expr_no_extern(*object) && expr_no_extern(*value_expr) ==> final(self).funcs == old(self).funcs,
            expr_no_extern(*object) && expr_no_extern(*value_expr) && lambda_free(*object) && lambda_free(*value_expr)
                ==> errors_view(final(self).errors@) == errors_view(old(self).errors@) + field_assign_errs(
                old(self).typing(),
                *object,
                field_name@,
                *value_expr,
                span,
            ),
        decreases expr_size(*object) + expr_size(*value_expr), 1int,
    {
        let ghost g = self.typing();
        let ghost ev0 = errors_view(self.errors@);
        let ghost plain = expr_no_extern(*object) && expr_no_extern(*value_expr) && lambda_free(*object) && lambda_free(
            *value_expr,
        );
        proof {
            reveal_strlit(".");
            assert(ev0 =~= ev0 + Seq::empty());
        }
        if let Expression::Identifier { name: obj_name, .. } = object {
            if let Some(entity) = self.env.lookup(obj_name.as_str()) {
                if !entity.kind.is_mutable() {
                    let mut full = obj_name.clone();
                    string_push_str(&mut full, ".");
                    string_push_str(&mut full, field_name);
                    let e = TypeError::AssignmentToImmutable {
                        name: full,
                        kind: entity.kind,
                        decl_span: entity.span,
                        assign_span: span,
                    };
                    proof {
                        lemma_errors_view_push(self.errors@, e);
                    }
                    self.errors.push(e);
                }
            }
        }
        let ghost ev1 = errors_view(self.errors@);
        let obj_ty = self.infer(object, None);
        let ghost ev2 = errors_view(self.errors@);
        proof {
            assert(ev2 =~= ev2 + Seq::empty());
        }
        match obj_ty {
            Ty::Struct(struct_name) => {
                let field = field_name.to_owned();
                let field_ty = match find_entry(&self.structs, &struct_name) {
                    Some(k) => match Checker::find_field(&self.structs[k].value, &field) {
                        Some(f) => {
                            proof {
                                let fv = self.structs_map()[struct_name@];
                                assert(fv == field_views(self.structs@[k as int].value.fields@));
                                lemma_first_field(fv, field@);
                                assert(fv[f as int].name == field@);
                                match first_field(fv, field@) {
                                    Some(j) => {
                                        if j < f {
                                            assert(fv[j].name == self.structs@[k as int].value.fields@[j].name@);
                                        }
                                        if f < j {
                                            assert(fv[f as int].name == field@);
                                        }
                                        assert(j == f);
                                    },
                                    None => {
                                        assert(fv[f as int].name == field@);
                                    },
                                }
                            }
                            Some(self.structs[k].value.fields[f].ty.duplicate())
                        },
                        None => {
                            proof {
                                let fv = self.structs_map()[struct_name@];
                                lemma_first_field(fv, field@);
                                if first_field(fv, field@) is Some {
                                    let j = first_field(fv, field@)->0;
                                    assert(fv[j].name == self.structs@[k as int].value.fields@[j].name@);
                                }
                            }
                            None
                        },
                    },
                    None => None,
                };
                match field_ty {
                    Some(ft) => {
                        let val_ty = self.infer(value_expr, None);
                        self.expect(&val_ty, &ft, value_expr.span());
                    },
                    None => {
                        let e = TypeError::UnknownField { struct_name, field, span };
                        proof {
                            lemma_errors_view_push(self.errors@, e);
                        }
                        self.errors.push(e);
                    },
                }
            },
            Ty::Error => {},
            _ => {
                let e = TypeError::NoFields { ty: obj_ty, span };
                proof {
                    lemma_errors_view_push(self.errors@, e);
                }
                self.errors.push(e);
            },
        }
        proof {
            if plain {
                assert(errors_view(self.errors@) =~= ev0 + field_assign_errs(g, *object, field_name@, *value_expr, span));
            }
        }
    }
}

impl Checker {
    /// Binds each field of a struct declaration, by its type, in the current scope.
    pub fn check_struct(&mut self, stmt: &Statement)
        requires
            old(self).wf(),
            stmt_wf(*stmt),
        ensures
            final(self).keeps_tables(old(self)),
            final(self).keeps_outer_scopes(old(self)),
            final(self).current_ret == old(self).current_ret,
            final(self).in_loop == old(self).in_loop,
            final(self).funcs == old(self).funcs,
            stmt matches Statement::Struct { fields, .. } ==> forall|k: int|
                0 <= k < fields.len() ==> final(self).env.scope_maps().last().contains_key(
                    #[trigger] fields@[k].name@,
                ),
    {
        if let Statement::Struct { fields, .. } = stmt {
            proof {
                lemma_params_wf(fields@);
            }
            let mut i: usize = 0;
            while i < fields.len()
                invariant
                    i <= fields.len(),
                    self.keeps_tables(old(self)),
                    self.keeps_outer_scopes(old(self)),
                    self.current_ret == old(self).current_ret,
                    self.in_loop == old(self).in_loop,
                    self.funcs == old(self).funcs,
                    i > 0 ==> self.env.scope_maps().len() > 0,
                    forall|k: int| 0 <= k < i ==> self.env.scope_maps().last().contains_key(#[trigger] fields@[k].name@),
                    forall|k: int| 0 <= k < fields.len() ==> type_wf(#[trigger] fields@[k].param_type),
                decreases fields.len() - i,
            {
                let ty = self.resolve(&fields[i].param_type);
                let ghost prev = self.env.scope_maps();
                self.defined(fields[i].name.clone(), ty, BindingKind::Var, stmt.span());
                proof {
                    let n = old(self).env.scope_maps().len();
                    if n > 0 {
                        assert(self.env.scope_maps().take(n - 1) =~= prev.take(n - 1));
                    }
                }
                i = i + 1;
            }
        }
    }

    /// Whether a function declares no result type (anything that is not a
    /// function counts as declaring none).
    pub fn ret_type_is_unit(&mut self, stmt: &Statement) -> (r: bool)
        ensures
            *final(self) == *old(self),
            r == (match *stmt {
                Statement::Func { return_type, .. } => return_type is None,
                _ => true,
            }),
    {
        if let Statement::Func { return_type, .. } = stmt {
            return return_type.is_none();
        }
        true
    }

    /// Whether the block returns on every path.
    pub fn does_block_return(&mut self, body: &Vec<Statement>) -> (r: bool)
        ensures
            *final(self) == *old(self),
            r == block_returns(body@),
        decreases stmts_size(body@),
    {
        proof {
            lemma_block_returns(body@);
            lemma_stmts_size(body@);
        }
        let mut i: usize = 0;
        while i < body.len()
            invariant
                i <= body.len(),
                *self == *old(self),
                forall|k: int| 0 <= k < i ==> !stmt_returns(#[trigger] body@[k]),
                forall|k: int| 0 <= k < body.len() ==> stmt_size(#[trigger] body@[k]) <= stmts_size(body@),
                block_returns(body@) <==> exists|k: int| 0 <= k < body.len() && stmt_returns(#[trigger] body@[k]),
            decreases body.len() - i,
        {
            match &body[i] {
                Statement::If(if_stmt) => {
                    proof {
                        lemma_elifs_return(if_stmt.else_if@);
                        crate::parser::shape::lemma_else_ifs_size(if_stmt.else_if@);
                    }
                    let does_return_if = self.does_block_return(&if_stmt.then_block);
                    let mut all_elifs = true;
                    let mut j: usize = 0;
                    while j < if_stmt.else_if.len()
                        invariant
                            j <= if_stmt.else_if.len(),
                            *self == *old(self),
                            all_elifs == forall|k: int| 0 <= k < j ==> block_returns((#[trigger] if_stmt.else_if@[k]).block@),
                            forall|k: int| 0 <= k < if_stmt.else_if.len() ==> expr_size((#[trigger] if_stmt.else_if@[k]).condition)
                                + stmts_size(if_stmt.else_if@[k].block@) <= crate::parser::shape::else_ifs_size(if_stmt.else_if@),
                            crate::parser::shape::else_ifs_size(if_stmt.else_if@) < stmts_size(body@),
                        decreases if_stmt.else_if.len() - j,
                    {
                        let b = self.does_block_return(&if_stmt.else_if[j].block);
                        all_elifs = all_elifs && b;
                        j = j + 1;
                    }
                    let does_return_else = self.does_block_return(&if_stmt.else_block);
                    if does_return_if && all_elifs && does_return_else {
                        return true;
                    }
                },
                Statement::Return { .. } => {
                    return true;
                },
                _ => {},
            }
            i = i + 1;
        }
        false
    }

    /// Reports a function with a declared result type whose body does not
    /// return on every path.
    pub fn check_returns(&mut self, stmt: &Statement)
        ensures
            final(self).only_reports(old(self)),
            match *stmt {
                Statement::Func { name, return_type, body, span, ending_span, .. } => if return_type is Some
                    && !block_returns(body@) {
                    final(self).errors@ == old(self).errors@.push(
                        (TypeError::MissingReturn { name, func_span: span, close_brace_span: ending_span }),
                    )
                } else {
                    final(self).errors@ == old(self).errors@
                },
                _ => final(self).errors@ == old(self).errors@,
            },
    {
        if let Statement::Func { name, body, span, ending_span, .. } = stmt {
            if self.ret_type_is_unit(stmt) {
                return;
            }
            let guarantee_returns = self.does_block_return(body);
            if !guarantee_returns {
                self.errors.push(
                    TypeError::MissingReturn { name: name.clone(), func_span: *span, close_brace_span: *ending_span },
                );
            }
        }
    }
}

/// A block returns on every path exactly when one of its statements does.
pub proof fn lemma_block_returns(s: Seq<Statement>)
    ensures
        block_returns(s) <==> exists|k: int| 0 <= k < s.len() && stmt_returns(#[trigger] s[k]),
    decreases s.len(),
{
    if s.len() > 0 {
        lemma_block_returns(s.drop_last());
        assert(forall|k: int| 0 <= k < s.len() - 1 ==> s.drop_last()[k] == s[k]);
        if stmt_returns(s.last()) {
            assert(stmt_returns(s[s.len() - 1]));
        }
    }
}

/// Every `else if` branch returns exactly when each of them does.
pub proof fn lemma_elifs_return(s: Seq<crate::parser::statement::ElseIf>)
    ensures
        elifs_return(s) <==> forall|k: int| 0 <= k < s.len() ==> block_returns((#[trigger] s[k]).block@),
    decreases s.len(),
{
    if s.len() > 0 {
        lemma_elifs_return(s.drop_last());
        assert(forall|k: int| 0 <= k < s.len() - 1 ==> s.drop_last()[k] == s[k]);
    }
}

/// The fields of a struct declaration, with the types they denote.
pub open spec fn resolved_fields(fields: Seq<FuncParam>) -> Seq<FieldView> {
    Seq::new(
        fields.len(),
        |i: int| FieldView { name: fields[i].name@, ty: resolve_ty(fields[i].param_type), span: fields[i].span },
    )
}

/// The scopes after binding `name` to `entity` in the innermost one (made
/// first when there is none), unless that scope binds the name already.
pub open spec fn bound(scopes: Seq<Map<Seq<char>, EntityView>>, name: Seq<char>, entity: EntityView) -> Seq<
    Map<Seq<char>, EntityView>,
> {
    let base = if scopes.len() == 0 {
        scopes.push(Map::empty())
    } else {
        scopes
    };
    if base.last().contains_key(name) {
        base
    } else {
        base.update(base.len() - 1, base.last().insert(name, entity))
    }
}

/// What binding `name` (at `span`) in the innermost scope reports: a second
/// definition, when that scope binds the name already.
pub open spec fn binding_errs(scopes: Seq<Map<Seq<char>, EntityView>>, name: Seq<char>, span: Span) -> Seq<ErrorView> {
    let base = if scopes.len() == 0 {
        scopes.push(Map::empty())
    } else {
        scopes
    };
    if base.last().contains_key(name) {
        seq![
            ErrorView::DuplicateDefinition {
                name,
                first_span: base.last()[name].span,
                second_span: span,
                def_kind: DefinitionKind::Var,
            },
        ]
    } else {
        Seq::empty()
    }
}

/// What `object.field = value` (at `span`) reports: an object that is an
/// immutable name, then what typing the object reports, then an object that
/// is no struct or a field it lacks, or what typing the value against the
/// field's type reports.
pub open spec fn field_assign_errs(g: Typing, object: Expression, field: Seq<char>, value: Expression, span: Span) -> Seq<
    ErrorView,
> {
    let imm = match object {
        Expression::Identifier { name, .. } => match lookup_in(g.scopes, name@) {
            Some(e) => if e.kind is Var {
                Seq::empty()
            } else {
                seq![
                    ErrorView::AssignmentToImmutable {
                        name: name@ + "."@ + field,
                        kind: e.kind,
                        decl_span: e.span,
                        assign_span: span,
                    },
                ]
            },
            None => Seq::empty(),
        },
        _ => Seq::empty(),
    };
    imm + errs_of(g, object, None) + match ty_of(g, object, None) {
        TyView::Struct(s) => if g.structs.contains_key(s) && first_field(g.structs[s], field) is Some {
            errs_of(g, value, None) + expect_errs(
                ty_of(g, value, None),
                field_ty(g, TyView::Struct(s), field),
                value.spec_span(),
            )
        } else {
            seq![ErrorView::UnknownField { struct_name: s, field, span }]
        },
        TyView::Error => Seq::empty(),
        t => seq![ErrorView::NoFields { ty: t, span }],
    }
}

/// A statement whose reports are stated one by one: a binding, a `return`
/// or an expression statement that assigns nothing, with no lambda and no
/// extern declaration in its expression.
pub open spec fn simple_stmt(st: Statement) -> bool {
    match st {
        Statement::Var { value, .. } => expr_no_extern(value) && lambda_free(value),
        Statement::Let { value, .. } => expr_no_extern(value) && lambda_free(value),
        Statement::Const { value, .. } => expr_no_extern(value) && lambda_free(value),
        Statement::Return { value, .. } => match value {
            Some(v) => expr_no_extern(v) && lambda_free(v),
            None => true,
        },
        Statement::Expression { expression, .. } => !is_assignment_expr(expression) && expr_no_extern(expression)
            && lambda_free(expression),
        _ => false,
    }
}

/// What checking a simple statement reports, in the typing `g`, `ret` being
/// the type `return` must give.
pub open spec fn stmt_errs(g: Typing, ret: TyView, st: Statement) -> Seq<ErrorView> {
    match st {
        Statement::Var { name, value, .. } => errs_of(g, value, None) + binding_errs(g.scopes, name@, st.spec_span()),
        Statement::Let { name, value, .. } => errs_of(g, value, None) + binding_errs(g.scopes, name@, st.spec_span()),
        Statement::Const { name, value, .. } => errs_of(g, value, None) + binding_errs(g.scopes, name@, st.spec_span()),
        Statement::Return { value, .. } => match value {
            Some(v) => errs_of(g, v, None) + expect_errs(ty_of(g, v, None), ret, st.spec_span()),
            None => expect_errs(TyView::Unit, ret, st.spec_span()),
        },
        Statement::Expression { expression, .. } => errs_of(g, expression, None),
        _ => Seq::empty(),
    }
}

/// The typing after checking a simple statement: a binding binds its name,
/// in the innermost scope, to the type of its value.
pub open spec fn stmt_typing(g: Typing, st: Statement) -> Typing {
    match st {
        Statement::Var { name, value, .. } => Typing {
            scopes: bound(
                g.scopes,
                name@,
                EntityView { ty: ty_of(g, value, None), kind: BindingKind::Var, span: st.spec_span() },
            ),
            ..g
        },
        Statement::Let { name, value, .. } => Typing {
            scopes: bound(
                g.scopes,
                name@,
                EntityView { ty: ty_of(g, value, None), kind: BindingKind::Let, span: st.spec_span() },
            ),
            ..g
        },
        Statement::Const { name, value, .. } => Typing {
            scopes: bound(
                g.scopes,
                name@,
                EntityView { ty: ty_of(g, value, None), kind: BindingKind::Const, span: st.spec_span() },
            ),
            ..g
        },
        _ => g,
    }
}

/// The typing after checking simple statements one after another.
pub open spec fn block_typing(g: Typing, s: Seq<Statement>) -> Typing
    decreases s.len(),
{
    if s.len() == 0 {
        g
    } else {
        stmt_typing(block_typing(g, s.drop_last()), s.last())
    }
}

/// What checking simple statements one after another reports.
pub open spec fn block_errs(g: Typing, ret: TyView, s: Seq<Statement>) -> Seq<ErrorView>
    decreases s.len(),
{
    if s.len() == 0 {
        Seq::empty()
    } else {
        block_errs(g, ret, s.drop_last()) + stmt_errs(block_typing(g, s.drop_last()), ret, s.last())
    }
}

/// Each statement of the block is simple.
pub open spec fn simple_block(s: Seq<Statement>) -> bool {
    forall|i: int| 0 <= i < s.len() ==> simple_stmt(#[trigger] s[i])
}

/// The typing with one more, empty, innermost scope.
pub open spec fn scoped(g: Typing) -> Typing {
    Typing { scopes: g.scopes.push(Map::empty()), ..g }
}

/// The typing after binding a function's parameters one after another.
pub open spec fn params_typing(g: Typing, params: Seq<FuncParam>) -> Typing
    decreases params.len(),
{
    if params.len() == 0 {
        g
    } else {
        let before = params_typing(g, params.drop_last());
        let p = params.last();
        Typing {
            scopes: bound(
                before.scopes,
                p.name@,
                EntityView { ty: resolve_ty(p.param_type), kind: BindingKind::Param, span: p.span },
            ),
            ..before
        }
    }
}

/// What binding a function's parameters reports: each parameter whose name
/// an earlier one took.
pub open spec fn params_errs(g: Typing, params: Seq<FuncParam>) -> Seq<ErrorView>
    decreases params.len(),
{
    if params.len() == 0 {
        Seq::empty()
    } else {
        params_errs(g, params.drop_last()) + binding_errs(
            params_typing(g, params.drop_last()).scopes,
            params.last().name@,
            params.last().span,
        )
    }
}

/// What checking that a function returns reports: a function that declares
/// a result type and whose body does not return on every path.
pub open spec fn returns_errs(stmt: Statement) -> Seq<ErrorView> {
    match stmt {
        Statement::Func { name, return_type, body, span, ending_span, .. } => if return_type is Some && !block_returns(
            body@,
        ) {
            seq![ErrorView::MissingReturn { name: name@, func_span: span, close_brace_span: ending_span }]
        } else {
            Seq::empty()
        },
        _ => Seq::empty(),
    }
}

/// Whether an expression statement assigns: `target op= value`.
pub open spec fn is_assignment_expr(e: Expression) -> bool {
    e matches Expression::Infix { operator, .. } && (operator is Assign || operator is AddAndAssign
        || operator is SubAndAssign || operator is MulAndAssign || operator is DivAndAssign || operator is ModAndAssign)
}

/// Immutability by default: a name that `let` or `const` binds afresh in
/// the innermost scope is then found with exactly that binding, which may
/// not be assigned again; `check_assignment` reports every assignment to
/// such a binding.
pub proof fn law_let_is_immutable(
    scopes: Seq<Map<Seq<char>, EntityView>>,
    name: Seq<char>,
    ty: TyView,
    kind: BindingKind,
    span: Span,
)
    requires
        kind is Let || kind is Const,
        scopes.len() == 0 || !scopes.last().contains_key(name),
    ensures
        lookup_in(bound(scopes, name, EntityView { ty, kind, span }), name) == Some(EntityView { ty, kind, span }),
        !kind.spec_is_mutable(),
{
    let base = if scopes.len() == 0 {
        scopes.push(Map::empty())
    } else {
        scopes
    };
    crate::typechecker::env::law_lookup_after_define(base, name, EntityView { ty, kind, span }, name);
}

/// The signature a declaration with these parameters, result type and
/// place records.
pub open spec fn sig_view(params: Seq<FuncParam>, return_type: Option<Type>, span: Span) -> FnSigView {
    FnSigView {
        params: Seq::new(params.len(), |i: int| resolve_ty(params[i].param_type)),
        ret: resolve_ret(return_type),
        span,
    }
}

/// The function table after recording the methods of an `extend` block of
/// the struct `s` as `s.method`: a method is recorded by its first
/// declaration.
pub open spec fn methods_funcs(funcs: Map<Seq<char>, FnSigView>, s: Seq<char>, methods: Seq<Statement>) -> Map<
    Seq<char>,
    FnSigView,
>
    decreases methods.len(),
{
    if methods.len() == 0 {
        funcs
    } else {
        let before = methods_funcs(funcs, s, methods.drop_last());
        match methods.last() {
            Statement::Func { name, params, return_type, span, .. } => if before.contains_key(method_key(s, name@)) {
                before
            } else {
                before.insert(method_key(s, name@), sig_view(params@, return_type, span))
            },
            _ => before,
        }
    }
}

/// The function table after an `extend target { methods }` block, the
/// struct table being `structs`: only the methods of a declared struct are
/// recorded.
pub open spec fn extend_funcs(
    funcs: Map<Seq<char>, FnSigView>,
    structs: Map<Seq<char>, Seq<FieldView>>,
    target: Type,
    methods: Seq<Statement>,
) -> Map<Seq<char>, FnSigView> {
    match resolve_ty(target) {
        TyView::Struct(s) => if structs.contains_key(s) {
            methods_funcs(funcs, s, methods)
        } else {
            funcs
        },
        _ => funcs,
    }
}

/// What recording the methods of `extend s { methods }` reports: a method
/// of the struct declared again (at the function of the method's name if
/// there is one, else at the first declaration of the method).
pub open spec fn methods_errs(
    funcs: Map<Seq<char>, FnSigView>,
    s: Seq<char>,
    methods: Seq<Statement>,
    stmt_span: Span,
) -> Seq<ErrorView>
    decreases methods.len(),
{
    if methods.len() == 0 {
        Seq::empty()
    } else {
        let prev = methods_errs(funcs, s, methods.drop_last(), stmt_span);
        let fs = methods_funcs(funcs, s, methods.drop_last());
        match methods.last() {
            Statement::Func { name, .. } => if fs.contains_key(method_key(s, name@)) {
                prev.push(
                    ErrorView::DuplicateDefinition {
                        name: method_key(s, name@),
                        first_span: if fs.contains_key(name@) {
                            fs[name@].span
                        } else {
                            fs[method_key(s, name@)].span
                        },
                        second_span: stmt_span,
                        def_kind: DefinitionKind::Fun,
                    },
                )
            } else {
                prev
            },
            _ => prev,
        }
    }
}

/// What an `extend target { methods }` block at `span` reports: an
/// undeclared struct, a target that is not a struct, or the methods
/// declared again.
pub open spec fn extend_errs(
    funcs: Map<Seq<char>, FnSigView>,
    structs: Map<Seq<char>, Seq<FieldView>>,
    target: Type,
    methods: Seq<Statement>,
    span: Span,
    stmt_span: Span,
) -> Seq<ErrorView> {
    match resolve_ty(target) {
        TyView::Struct(s) => if structs.contains_key(s) {
            methods_errs(funcs, s, methods, stmt_span)
        } else {
            seq![ErrorView::UnknownName { name: s, span }]
        },
        t => seq![ErrorView::Unsupported { desc: "Cannot extend non-struct type "@ + debug_text(t), span }],
    }
}

/// The function table after the declarations `stmts`, the struct table
/// being `structs` before them: a function is recorded by its first
/// declaration, an extern function by its last, and the methods of
/// `extend` blocks as `Struct.method`.
pub open spec fn collect_funcs(
    funcs: Map<Seq<char>, FnSigView>,
    structs: Map<Seq<char>, Seq<FieldView>>,
    stmts: Seq<Statement>,
) -> Map<Seq<char>, FnSigView>
    decreases stmts.len(),
{
    if stmts.len() == 0 {
        funcs
    } else {
        let before = collect_funcs(funcs, structs, stmts.drop_last());
        match stmts.last() {
            Statement::Func { name, params, return_type, span, .. } => if before.contains_key(name@) {
                before
            } else {
                before.insert(name@, sig_view(params@, return_type, span))
            },
            Statement::ExternFunc { name, params, return_type, span } => before.insert(
                name@,
                sig_view(params@, return_type, span),
            ),
            Statement::Extend { target, methods, .. } => extend_funcs(
                before,
                collect_structs(structs, stmts.drop_last()),
                target,
                methods@,
            ),
            _ => before,
        }
    }
}

/// The values of the constants declared among `stmts` declare no extern
/// function.
pub open spec fn consts_no_extern(stmts: Seq<Statement>) -> bool {
    forall|i: int| 0 <= i < stmts.len() ==> (#[trigger] stmts[i] matches Statement::Const { value, .. } ==> expr_no_extern(value))
}

/// The struct table after the declarations `stmts`: a struct is recorded by
/// its first declaration.
pub open spec fn collect_structs(m: Map<Seq<char>, Seq<FieldView>>, stmts: Seq<Statement>) -> Map<
    Seq<char>,
    Seq<FieldView>,
>
    decreases stmts.len(),
{
    if stmts.len() == 0 {
        m
    } else {
        let before = collect_structs(m, stmts.drop_last());
        match stmts.last() {
            Statement::Struct { name, fields, .. } => if before.contains_key(name@) {
                before
            } else {
                before.insert(name@, resolved_fields(fields@))
            },
            _ => before,
        }
    }
}

/// The value of every constant declared among the statements holds no
/// lambda and declares no extern function.
pub open spec fn consts_plain(stmts: Seq<Statement>) -> bool {
    forall|i: int|
        0 <= i < stmts.len() ==> (#[trigger] stmts[i] matches Statement::Const { value, .. } ==> expr_no_extern(value)
            && lambda_free(value))
}

/// The innermost scope, below the scopes `outer`, after the declarations
/// among `stmts` are bound in it: a constant with the type of its value, a
/// function (by its first declaration) and an extern function as function
/// values, each unless the scope already binds its name.
pub open spec fn decl_scope(
    outer: Seq<Map<Seq<char>, EntityView>>,
    last: Map<Seq<char>, EntityView>,
    funcs: Map<Seq<char>, FnSigView>,
    structs: Map<Seq<char>, Seq<FieldView>>,
    stmts: Seq<Statement>,
) -> Map<Seq<char>, EntityView>
    decreases stmts.len(),
{
    if stmts.len() == 0 {
        last
    } else {
        let before = decl_scope(outer, last, funcs, structs, stmts.drop_last());
        let fs = collect_funcs(funcs, structs, stmts.drop_last());
        let ss = collect_structs(structs, stmts.drop_last());
        match stmts.last() {
            Statement::Const { name, value, span } => if before.contains_key(name@) {
                before
            } else {
                let g = Typing { scopes: outer.push(before), funcs: fs, structs: ss };
                before.insert(name@, EntityView { ty: ty_of(g, value, None), kind: BindingKind::Const, span })
            },
            Statement::Func { name, params, return_type, span, .. } => if fs.contains_key(name@) || before.contains_key(
                name@,
            ) {
                before
            } else {
                let sig = sig_view(params@, return_type, span);
                before.insert(
                    name@,
                    EntityView {
                        ty: TyView::Fn { params: sig.params, ret: Box::new(sig.ret) },
                        kind: BindingKind::Var,
                        span,
                    },
                )
            },
            Statement::ExternFunc { name, params, return_type, span } => if before.contains_key(name@) {
                before
            } else {
                let sig = sig_view(params@, return_type, span);
                before.insert(
                    name@,
                    EntityView {
                        ty: TyView::Fn { params: sig.params, ret: Box::new(sig.ret) },
                        kind: BindingKind::Var,
                        span,
                    },
                )
            },
            _ => before,
        }
    }
}

/// What recording the declarations among `stmts` reports: what typing a
/// constant's value reports, a second
/// declaration of a function (at the first's signature) or of a struct (at
/// the first field of the first), a new function or an extern function
/// whose name the innermost scope already binds, and what each `extend`
/// block reports.
pub open spec fn decl_errs(
    outer: Seq<Map<Seq<char>, EntityView>>,
    last: Map<Seq<char>, EntityView>,
    funcs: Map<Seq<char>, FnSigView>,
    structs: Map<Seq<char>, Seq<FieldView>>,
    stmts: Seq<Statement>,
) -> Seq<ErrorView>
    decreases stmts.len(),
{
    if stmts.len() == 0 {
        Seq::empty()
    } else {
        let prev = decl_errs(outer, last, funcs, structs, stmts.drop_last());
        let fs = collect_funcs(funcs, structs, stmts.drop_last());
        let ss = collect_structs(structs, stmts.drop_last());
        let sc = decl_scope(outer, last, funcs, structs, stmts.drop_last());
        let stmt = stmts.last();
        match stmt {
            Statement::Const { name, value, span } => {
                let g = Typing { scopes: outer.push(sc), funcs: fs, structs: ss };
                prev + errs_of(g, value, None) + if sc.contains_key(name@) {
                    seq![
                        ErrorView::DuplicateDefinition {
                            name: name@,
                            first_span: sc[name@].span,
                            second_span: span,
                            def_kind: DefinitionKind::Var,
                        },
                    ]
                } else {
                    Seq::empty()
                }
            },
            Statement::Func { name, span, .. } => if fs.contains_key(name@) {
                prev.push(
                    ErrorView::DuplicateDefinition {
                        name: name@,
                        first_span: fs[name@].span,
                        second_span: stmt.spec_span(),
                        def_kind: DefinitionKind::Fun,
                    },
                )
            } else if sc.contains_key(name@) {
                prev.push(
                    ErrorView::DuplicateDefinition {
                        name: name@,
                        first_span: sc[name@].span,
                        second_span: span,
                        def_kind: DefinitionKind::Var,
                    },
                )
            } else {
                prev
            },
            Statement::Struct { name, .. } => if ss.contains_key(name@) {
                prev.push(
                    ErrorView::DuplicateDefinition {
                        name: name@,
                        first_span: ss[name@][0].span,
                        second_span: stmt.spec_span(),
                        def_kind: DefinitionKind::Struct,
                    },
                )
            } else {
                prev
            },
            Statement::ExternFunc { name, span, .. } => if sc.contains_key(name@) {
                prev.push(
                    ErrorView::DuplicateDefinition {
                        name: name@,
                        first_span: sc[name@].span,
                        second_span: span,
                        def_kind: DefinitionKind::Var,
                    },
                )
            } else {
                prev
            },
            Statement::Extend { target, methods, span } => prev + extend_errs(
                fs,
                ss,
                target,
                methods@,
                span,
                stmt.spec_span(),
            ),
            _ => prev,
        }
    }
}

/// No struct declared again after a first declaration without fields (the
/// report of the second declaration points at the first field of the first).
pub open spec fn redeclarations_ok(m: Map<Seq<char>, Seq<FieldView>>, stmts: Seq<Statement>) -> bool
    decreases stmts.len(),
{
    if stmts.len() == 0 {
        true
    } else {
        let before = collect_structs(m, stmts.drop_last());
        &&& redeclarations_ok(m, stmts.drop_last())
        &&& (stmts.last() matches Statement::Struct { name, .. } ==> (before.contains_key(name@) ==> before[name@].len()
            > 0))
    }
}

/// The place of the last function named `main` among `stmts`, else `init`.
pub open spec fn last_main(init: Option<Span>, stmts: Seq<Statement>) -> Option<Span>
    decreases stmts.len(),
{
    if stmts.len() == 0 {
        init
    } else {
        match stmts.last() {
            Statement::Func { name, span, .. } => if name@ == "main"@ {
                Some(span)
            } else {
                last_main(init, stmts.drop_last())
            },
            _ => last_main(init, stmts.drop_last()),
        }
    }
}

impl Checker {
    /// The signature of a function declaration or extern function: the types
    /// its parameters and result denote.
    fn signature(&mut self, params: &Vec<FuncParam>, return_type: &Option<Type>, span: Span) -> (r: FnSig)
        requires
            params_wf(params@),
            match *return_type {
                Some(t) => type_wf(t),
                None => true,
            },
        ensures
            *final(self) == *old(self),
            r@ == (FnSigView {
                params: Seq::new(params.len() as nat, |i: int| resolve_ty(params@[i].param_type)),
                ret: resolve_ret(*return_type),
                span,
            }),
    {
        proof {
            lemma_params_wf(params@);
        }
        let mut ps: Vec<Ty> = Vec::new();
        let mut i: usize = 0;
        while i < params.len()
            invariant
                i <= params.len(),
                *self == *old(self),
                forall|k: int| 0 <= k < params.len() ==> type_wf(#[trigger] params@[k].param_type),
                Ty::views(ps@) == Seq::new(i as nat, |k: int| resolve_ty(params@[k].param_type)),
            decreases params.len() - i,
        {
            let t = self.resolve(&params[i].param_type);
            let ghost before = ps@;
            ps.push(t);
            proof {
                assert(ps@.drop_last() == before);
                assert(Ty::views(ps@) =~= Seq::new((i + 1) as nat, |k: int| resolve_ty(params@[k].param_type)));
            }
            i = i + 1;
        }
        let ret = self.resolve_return(return_type);
        FnSig { params: ps, ret, span }
    }

    /// The fields of a struct declaration, with the types they denote.
    fn struct_sig(&mut self, fields: &Vec<FuncParam>) -> (r: StructSig)
        requires
            params_wf(fields@),
        ensures
            *final(self) == *old(self),
            r@ == resolved_fields(fields@),
    {
        proof {
            lemma_params_wf(fields@);
        }
        let mut out: Vec<StructField> = Vec::new();
        let mut i: usize = 0;
        while i < fields.len()
            invariant
                i <= fields.len(),
                *self == *old(self),
                forall|k: int| 0 <= k < fields.len() ==> type_wf(#[trigger] fields@[k].param_type),
                out.len() == i,
                field_views(out@) == resolved_fields(fields@.take(i as int)),
            decreases fields.len() - i,
        {
            let t = self.resolve(&fields[i].param_type);
            let ghost before = out@;
            out.push(StructField { name: fields[i].name.clone(), ty: t, span: fields[i].span });
            proof {
                let want = resolved_fields(fields@.take(i + 1));
                let had = resolved_fields(fields@.take(i as int));
                assert forall|k: int| 0 <= k < i + 1 implies field_views(out@)[k] == want[k] by {
                    if k < i {
                        assert(out@[k] == before[k]);
                        assert(field_views(before)[k] == had[k]);
                    }
                }
                assert(field_views(out@) =~= want);
            }
            i = i + 1;
        }
        proof {
            assert(fields@.take(fields.len() as int) == fields@);
        }
        StructSig { fields: out }
    }

    /// Records the signatures of the declarations: constants (bound by the
    /// type of their value), functions and extern functions (bound as
    /// function values and recorded in the function table), structs
    /// (recorded in the struct table) and the methods of `extend` blocks
    /// (recorded as `Struct.method`). Declaring a function or struct twice
    /// is reported; extending an undeclared struct or a type that is not a
    /// struct is reported.
    pub fn collect_signatures(&mut self, program: &Vec<Statement>)
        requires
            old(self).wf(),
            stmts_wf(program@),
            redeclarations_ok(old(self).structs_map(), program@),
        ensures
            final(self).wf(),
            final(self).keeps_outer_scopes(old(self)),
            extends(final(self).errors@, old(self).errors@),
            final(self).structs_map() == collect_structs(old(self).structs_map(), program@),
            final(self).main_fn_span == last_main(old(self).main_fn_span, program@),
            old(self).funcs_map().dom().subset_of(final(self).funcs_map().dom()),
            forall|i: int| 0 <= i < program.len() ==> (#[trigger] program@[i] matches Statement::Func { name, .. }
                ==> final(self).funcs_map().contains_key(name@)),
            forall|i: int| 0 <= i < program.len() ==> (#[trigger] program@[i] matches Statement::ExternFunc { name, .. }
                ==> final(self).funcs_map().contains_key(name@)),
            program.len() == 0 ==> *final(self) == *old(self),
            consts_no_extern(program@) ==> final(self).funcs_map() == collect_funcs(
                old(self).funcs_map(),
                old(self).structs_map(),
                program@,
            ),
            consts_plain(program@) && old(self).env.scope_maps().len() > 0 ==> errors_view(final(self).errors@)
                == errors_view(old(self).errors@) + decl_errs(
                old(self).env.scope_maps().drop_last(),
                old(self).env.scope_maps().last(),
                old(self).funcs_map(),
                old(self).structs_map(),
                program@,
            ),
            consts_plain(program@) && old(self).env.scope_maps().len() > 0 ==> final(self).env.scope_maps().last()
                == decl_scope(
                old(self).env.scope_maps().drop_last(),
                old(self).env.scope_maps().last(),
                old(self).funcs_map(),
                old(self).structs_map(),
                program@,
            ),
    {
        proof {
            lemma_stmts_wf(program@);
        }
        let main_name = string_from("main");
        proof {
            reveal_strlit("main");
        }
        let mut i: usize = 0;
        while i < program.len()
            invariant
                i <= program.len(),
                main_name@ == "main"@,
                self.wf(),
                self.keeps_outer_scopes(old(self)),
                extends(self.errors@, old(self).errors@),
                forall|k: int| 0 <= k < program.len() ==> stmt_wf(#[trigger] program@[k]),
                redeclarations_ok(old(self).structs_map(), program@),
                self.structs_map() == collect_structs(old(self).structs_map(), program@.take(i as int)),
                self.main_fn_span == last_main(old(self).main_fn_span, program@.take(i as int)),
                old(self).funcs_map().dom().subset_of(self.funcs_map().dom()),
                forall|k: int| 0 <= k < i ==> (#[trigger] program@[k] matches Statement::Func { name, .. }
                    ==> self.funcs_map().contains_key(name@)),
                forall|k: int| 0 <= k < i ==> (#[trigger] program@[k] matches Statement::ExternFunc { name, .. }
                    ==> self.funcs_map().contains_key(name@)),
                program.len() == 0 ==> *self == *old(self),
                consts_no_extern(program@) ==> self.funcs_map() == collect_funcs(
                    old(self).funcs_map(),
                    old(self).structs_map(),
                    program@.take(i as int),
                ),
                consts_plain(program@) && old(self).env.scope_maps().len() > 0 ==> errors_view(self.errors@)
                    == errors_view(old(self).errors@) + decl_errs(
                    old(self).env.scope_maps().drop_last(),
                    old(self).env.scope_maps().last(),
                    old(self).funcs_map(),
                    old(self).structs_map(),
                    program@.take(i as int),
                ),
                consts_plain(program@) && old(self).env.scope_maps().len() > 0 ==> self.env.scope_maps().last()
                    == decl_scope(
                    old(self).env.scope_maps().drop_last(),
                    old(self).env.scope_maps().last(),
                    old(self).funcs_map(),
                    old(self).structs_map(),
                    program@.take(i as int),
                ),
            decreases program.len() - i,
        {
            let ghost pre = *self;
            let ghost done = program@.take(i as int);
            proof {
                assert(program@.take(i + 1).drop_last() == done);
                assert(program@.take(i + 1).last() == program@[i as int]);
                lemma_redeclarations_prefix(old(self).structs_map(), program@, i + 1);
            }
            let stmt = &program[i];
            match stmt {
                Statement::Const { name, value, span } => {
                    proof {
                        let sm = self.env.scope_maps();
                        if consts_plain(program@) && old(self).env.scope_maps().len() > 0 {
                            assert(sm =~= old(self).env.scope_maps().drop_last().push(sm.last()));
                        }
                    }
                    let ty = self.infer(value, None);
                    let ghost prev = self.env.scope_maps();
                    let ghost errs_before = self.errors@;
                    self.defined(name.clone(), ty, BindingKind::Const, *span);
                    proof {
                        lemma_define_keeps_outer(prev, self.env.scope_maps());
                        if self.errors@.len() > errs_before.len() {
                            lemma_errors_view_push(errs_before, self.errors@.last());
                            assert(self.errors@ == errs_before.push(self.errors@.last()));
                        }
                    }
                },
                Statement::Func { name, params, return_type, span, .. } => {
                    if *name == main_name {
                        self.main_fn_span = Some(*span);
                    }
                    let sig = self.signature(params, return_type, *span);
                    match find_entry(&self.funcs, name) {
                        Some(k) => {
                            let first_span = self.funcs[k].value.span;
                            let e = TypeError::DuplicateDefinition {
                                name: name.clone(),
                                first_span,
                                second_span: stmt.span(),
                                def_kind: DefinitionKind::Fun,
                            };
                            proof {
                                lemma_errors_view_push(self.errors@, e);
                            }
                            self.errors.push(e);
                        },
                        None => {
                            let f = Ty::Fn { params: Ty::duplicate_all(&sig.params), ret: Box::new(sig.ret.duplicate()) };
                            let ghost prev = self.env.scope_maps();
                            let ghost errs_before = self.errors@;
                            self.defined(name.clone(), f, BindingKind::Var, *span);
                            proof {
                                lemma_define_keeps_outer(prev, self.env.scope_maps());
                                if self.errors@.len() > errs_before.len() {
                                    lemma_errors_view_push(errs_before, self.errors@.last());
                                    assert(self.errors@ == errs_before.push(self.errors@.last()));
                                }
                            }
                            insert_entry(&mut self.funcs, name.clone(), sig);
                        },
                    }
                },
                Statement::ExternFunc { name, params, return_type, span } => {
                    let sig = self.signature(params, return_type, *span);
                    let f = Ty::Fn { params: Ty::duplicate_all(&sig.params), ret: Box::new(sig.ret.duplicate()) };
                    let ghost prev = self.env.scope_maps();
                    let ghost errs_before = self.errors@;
                    self.defined(name.clone(), f, BindingKind::Var, *span);
                    proof {
                        lemma_define_keeps_outer(prev, self.env.scope_maps());
                        if self.errors@.len() > errs_before.len() {
                            lemma_errors_view_push(errs_before, self.errors@.last());
                            assert(self.errors@ == errs_before.push(self.errors@.last()));
                        }
                    }
                    insert_entry(&mut self.funcs, name.clone(), sig);
                },
                Statement::Struct { name, fields, .. } => {
                    let sig = self.struct_sig(fields);
                    match find_entry(&self.structs, name) {
                        Some(k) => {
                            let first_span = self.structs[k].value.fields[0].span;
                            let e = TypeError::DuplicateDefinition {
                                name: name.clone(),
                                first_span,
                                second_span: stmt.span(),
                                def_kind: DefinitionKind::Struct,
                            };
                            proof {
                                lemma_errors_view_push(self.errors@, e);
                            }
                            self.errors.push(e);
                        },
                        None => {
                            push_new_entry(&mut self.structs, name.clone(), sig);
                        },
                    }
                },
                Statement::Extend { target, methods, span } => {
                    self.collect_methods(target, methods, *span, stmt.span());
                },
                _ => {},
            }
            proof {
                assert(program@.take(i + 1).drop_last() == done);
                assert(program@.take(i + 1).last() == program@[i as int]);
            }
            i = i + 1;
        }
        proof {
            assert(program@.take(program.len() as int) == program@);
        }
    }
}

/// Binding a name in the innermost scope leaves the outer scopes as they
/// were.
pub proof fn lemma_define_keeps_outer(before: Seq<Map<Seq<char>, EntityView>>, after: Seq<Map<Seq<char>, EntityView>>)
    requires
        before.len() > 0 ==> (after == before || after == before.update(before.len() - 1, after.last())),
    ensures
        before.len() > 0 ==> after.len() == before.len() && after.take(before.len() - 1) == before.take(
            before.len() - 1,
        ),
{
    if before.len() > 0 {
        assert(after.take(before.len() - 1) =~= before.take(before.len() - 1));
    }
}

/// The declarations before a point meet the condition when all do.
pub proof fn lemma_redeclarations_prefix(m: Map<Seq<char>, Seq<FieldView>>, stmts: Seq<Statement>, n: int)
    requires
        0 <= n <= stmts.len(),
        redeclarations_ok(m, stmts),
    ensures
        redeclarations_ok(m, stmts.take(n)),
    decreases stmts.len(),
{
    if n < stmts.len() {
        assert(stmts.drop_last().take(n) == stmts.take(n));
        lemma_redeclarations_prefix(m, stmts.drop_last(), n);
    } else {
        assert(stmts.take(n) == stmts);
    }
}

/// For each struct of a table, whether it has fields.
pub open spec fn has_fields(m: Map<Seq<char>, Seq<FieldView>>) -> Map<Seq<char>, bool> {
    Map::new(|k: Seq<char>| m.contains_key(k), |k: Seq<char>| m[k].len() > 0)
}

impl Checker {
    /// Whether `redeclarations_ok` holds of `stmts` against this checker's
    /// struct table: a caller tests it before it collects the declarations.
    pub fn redeclarations_checked(&self, stmts: &Vec<Statement>) -> (r: bool)
        requires
            self.wf(),
        ensures
            r == redeclarations_ok(self.structs_map(), stmts@),
    {
        let ghost m = self.structs_map();
        let ghost ss = self.structs@;
        let mut seen: Vec<Entry<bool>> = Vec::new();
        let mut j: usize = 0;
        while j < self.structs.len()
            invariant
                j <= self.structs.len(),
                ss == self.structs@,
                unique_names(ss),
                unique_names(seen@),
                table_map(seen@) == has_fields(table_map(ss.take(j as int))),
            decreases self.structs.len() - j,
        {
            let e = &self.structs[j];
            let ghost pre = ss.take(j as int);
            proof {
                assert(ss.take(j + 1).drop_last() == pre);
                assert(ss.take(j + 1).last() == ss[j as int]);
                assert(unique_names(pre));
                lemma_table_map(pre);
                assert forall|i: int| 0 <= i < pre.len() implies pre[i].name@ != ss[j as int].name@ by {
                    assert(pre[i] == ss[i]);
                }
            }
            push_new_entry(&mut seen, e.name.clone(), e.value.fields.len() > 0);
            proof {
                assert(table_map(seen@) =~= has_fields(table_map(ss.take(j + 1))));
            }
            j = j + 1;
        }
        proof {
            assert(ss.take(ss.len() as int) == ss);
        }
        let mut i: usize = 0;
        while i < stmts.len()
            invariant
                i <= stmts.len(),
                m == self.structs_map(),
                unique_names(seen@),
                table_map(seen@) == has_fields(collect_structs(m, stmts@.take(i as int))),
                redeclarations_ok(m, stmts@.take(i as int)),
            decreases stmts.len() - i,
        {
            let ghost done = stmts@.take(i as int);
            proof {
                assert(stmts@.take(i + 1).drop_last() == done);
                assert(stmts@.take(i + 1).last() == stmts@[i as int]);
            }
            match &stmts[i] {
                Statement::Struct { name, fields, .. } => {
                    match find_entry(&seen, name) {
                        Some(k) => {
                            if !seen[k].value {
                                proof {
                                    if redeclarations_ok(m, stmts@) {
                                        lemma_redeclarations_prefix(m, stmts@, i + 1);
                                    }
                                }
                                return false;
                            }
                        },
                        None => {
                            push_new_entry(&mut seen, name.clone(), fields.len() > 0);
                            proof {
                                let before = collect_structs(m, done);
                                assert(table_map(seen@) =~= has_fields(
                                    before.insert(name@, resolved_fields(fields@)),
                                ));
                            }
                        },
                    }
                },
                _ => {},
            }
            i = i + 1;
        }
        proof {
            assert(stmts@.take(stmts.len() as int) == stmts@);
        }
        true
    }

    /// Records the methods of `extend target { ... }` as `Struct.method`.
    fn collect_methods(&mut self, target: &Type, methods: &Vec<Statement>, span: Span, stmt_span: Span)
        requires
            old(self).wf(),
            type_wf(*target),
            stmts_wf(methods@),
        ensures
            final(self).wf(),
            final(self).structs == old(self).structs,
            final(self).env == old(self).env,
            final(self).main_fn_span == old(self).main_fn_span,
            extends(final(self).errors@, old(self).errors@),
            old(self).funcs_map().dom().subset_of(final(self).funcs_map().dom()),
            final(self).funcs_map() == extend_funcs(old(self).funcs_map(), old(self).structs_map(), *target, methods@),
            errors_view(final(self).errors@) == errors_view(old(self).errors@) + extend_errs(
                old(self).funcs_map(),
                old(self).structs_map(),
                *target,
                methods@,
                span,
                stmt_span,
            ),
    {
        proof {
            lemma_stmts_wf(methods@);
            assert(methods@.take(0) =~= Seq::<Statement>::empty());
        }
        let target_ty = self.resolve(target);
        match target_ty {
            Ty::Struct(struct_name) => {
                if find_entry(&self.structs, &struct_name).is_none() {
                    let e = TypeError::UnknownName { name: struct_name, span };
                    proof {
                        lemma_errors_view_push(self.errors@, e);
                    }
                    self.errors.push(e);
                    return;
                }
                let mut i: usize = 0;
                while i < methods.len()
                    invariant
                        i <= methods.len(),
                        self.wf(),
                        self.structs == old(self).structs,
                        self.env == old(self).env,
                        self.main_fn_span == old(self).main_fn_span,
                        extends(self.errors@, old(self).errors@),
                        old(self).funcs_map().dom().subset_of(self.funcs_map().dom()),
                        forall|k: int| 0 <= k < methods.len() ==> stmt_wf(#[trigger] methods@[k]),
                        self.funcs_map() == methods_funcs(old(self).funcs_map(), struct_name@, methods@.take(i as int)),
                        errors_view(self.errors@) == errors_view(old(self).errors@) + methods_errs(
                            old(self).funcs_map(),
                            struct_name@,
                            methods@.take(i as int),
                            stmt_span,
                        ),
                    decreases methods.len() - i,
                {
                    proof {
                        assert(methods@.take(i + 1).drop_last() =~= methods@.take(i as int));
                        assert(methods@.take(i + 1).last() == methods@[i as int]);
                        lemma_table_map(self.funcs@);
                    }
                    if let Statement::Func { name, params, return_type, span: method_span, .. } = &methods[i] {
                        let full_name = dotted(&struct_name, name);
                        let sig = self.signature(params, return_type, *method_span);
                        match find_entry(&self.funcs, &full_name) {
                            Some(k) => {
                                let first_span = match find_entry(&self.funcs, name) {
                                    Some(g) => self.funcs[g].value.span,
                                    None => self.funcs[k].value.span,
                                };
                                let e = TypeError::DuplicateDefinition {
                                    name: full_name,
                                    first_span,
                                    second_span: stmt_span,
                                    def_kind: DefinitionKind::Fun,
                                };
                                proof {
                                    lemma_errors_view_push(self.errors@, e);
                                }
                                self.errors.push(e);
                            },
                            None => {
                                push_new_entry(&mut self.funcs, full_name, sig);
                            },
                        }
                    }
                    i = i + 1;
                }
                proof {
                    assert(methods@.take(methods.len() as int) =~= methods@);
                }
            },
            _ => {
                let mut desc = string_from("Cannot extend non-struct type ");
                let d = target_ty.debug();
                string_push_str(&mut desc, d.as_str());
                let e = TypeError::Unsupported { desc, span };
                proof {
                    lemma_errors_view_push(self.errors@, e);
                }
                self.errors.push(e);
            },
        }
    }

    /// Binds the built-in functions `print`, `println` (one argument: an
    /// int, float, string or bool) and `scanln` (no argument, a string) in
    /// the innermost scope.
    pub fn define_builtins(&mut self)
        requires
            old(self).wf(),
        ensures
            final(self).wf(),
            final(self).funcs == old(self).funcs,
            final(self).structs == old(self).structs,
            final(self).main_fn_span == old(self).main_fn_span,
            extends(final(self).errors@, old(self).errors@),
            final(self).env.scope_maps().len() == if old(self).env.scope_maps().len() == 0 {
                1
            } else {
                old(self).env.scope_maps().len()
            },
            final(self).keeps_outer_scopes(old(self)),
            final(self).env.scope_maps().last().contains_key("print"@),
            final(self).env.scope_maps().last().contains_key("println"@),
            final(self).env.scope_maps().last().contains_key("scanln"@),
    {
        let mut printable: Vec<Ty> = Vec::new();
        printable.push(Ty::Int);
        printable.push(Ty::Float);
        printable.push(Ty::String);
        printable.push(Ty::Bool);
        let mut print_params: Vec<Ty> = Vec::new();
        print_params.push(Ty::Union(printable));
        let print_ty = Ty::Fn { params: print_params, ret: Box::new(Ty::Unit) };
        let println_ty = print_ty.duplicate();
        let scan_ty = Ty::Fn { params: Vec::new(), ret: Box::new(Ty::String) };
        let ghost s0 = self.env.scope_maps();
        self.defined(string_from("print"), print_ty, BindingKind::Let, Span::origin());
        let ghost s1 = self.env.scope_maps();
        self.defined(string_from("println"), println_ty, BindingKind::Let, Span::origin());
        let ghost s2 = self.env.scope_maps();
        self.defined(string_from("scanln"), scan_ty, BindingKind::Var, Span::origin());
        proof {
            lemma_define_keeps_outer(s0, s1);
            lemma_define_keeps_outer(s1, s2);
            lemma_define_keeps_outer(s2, self.env.scope_maps());
        }
    }

    /// Checks a whole program: the built-ins and signatures are bound in an
    /// outer scope, each function is checked, then the top-level code with
    /// `void` as the type `return` must give. A program with both top-level
    /// code and a `main` function is reported.
    pub fn check_program(&mut self, program: &Program)
        requires
            old(self).wf(),
            stmts_wf(program.declarations@),
            stmts_wf(program.main@),
            redeclarations_ok(old(self).structs_map(), program.declarations@),
        ensures
            final(self).wf(),
            extends(final(self).errors@, old(self).errors@),
            final(self).structs_map() == collect_structs(old(self).structs_map(), program.declarations@),
            final(self).env.scope_maps() == old(self).env.scope_maps(),
            program.main.len() > 0 ==> match last_main(old(self).main_fn_span, program.declarations@) {
                Some(fn_span) => final(self).errors@.contains(
                    (TypeError::ConflictingEntryPoint {
                        first_decl_span: program.main@[0].spec_span(),
                        second_decl_span: fn_span,
                    }),
                ),
                None => true,
            },
    {
        proof {
            lemma_stmts_wf(program.declarations@);
            lemma_stmts_wf(program.main@);
        }
        let ghost scopes0 = self.env.scope_maps();
        self.env.push();
        self.define_builtins();
        self.collect_signatures(&program.declarations);
        let ghost structs1 = self.structs_map();
        let mut i: usize = 0;
        while i < program.declarations.len()
            invariant
                i <= program.declarations.len(),
                self.wf(),
                extends(self.errors@, old(self).errors@),
                self.structs_map() == structs1,
                self.main_fn_span == last_main(old(self).main_fn_span, program.declarations@),
                self.env.scope_maps().len() == scopes0.len() + 1,
                self.env.scope_maps().take(scopes0.len() as int) == scopes0,
                forall|k: int| 0 <= k < program.declarations.len() ==> stmt_wf(#[trigger] program.declarations@[k]),
            decreases program.declarations.len() - i,
        {
            if matches!(program.declarations[i], Statement::Func { .. }) {
                self.check_fn(&program.declarations[i]);
            }
            i = i + 1;
        }
        let ghost before_conflict = self.errors@;
        if program.main.len() > 0 {
            if let Some(fn_span) = self.main_fn_span {
                self.errors.push(
                    TypeError::ConflictingEntryPoint {
                        first_decl_span: program.main[0].span(),
                        second_decl_span: fn_span,
                    },
                );
            }
        }
        let ghost conflict_errors = self.errors@;
        self.current_ret = Ty::Unit;
        let mut j: usize = 0;
        while j < program.main.len()
            invariant
                j <= program.main.len(),
                self.wf(),
                extends(self.errors@, conflict_errors),
                extends(conflict_errors, old(self).errors@),
                self.structs_map() == structs1,
                self.env.scope_maps().len() == scopes0.len() + 1,
                self.env.scope_maps().take(scopes0.len() as int) == scopes0,
                forall|k: int| 0 <= k < program.main.len() ==> stmt_wf(#[trigger] program.main@[k]),
            decreases program.main.len() - j,
        {
            self.check_statement(&program.main[j]);
            j = j + 1;
        }
        self.env.pop();
        proof {
            assert(self.env.scope_maps() =~= scopes0);
            if program.main.len() > 0 {
                if let Some(fn_span) = last_main(old(self).main_fn_span, program.declarations@) {
                    let e = TypeError::ConflictingEntryPoint {
                        first_decl_span: program.main@[0].spec_span(),
                        second_decl_span: fn_span,
                    };
                    assert(conflict_errors[conflict_errors.len() - 1] == e);
                    assert(self.errors@[conflict_errors.len() - 1] == e);
                }
            }
        }
    }
}

} // verus!
