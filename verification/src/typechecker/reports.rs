//! The errors the checker reports while it types an expression, in order.
use vstd::prelude::*;

use crate::lexer::span::Span;
use crate::lexer::token::{lemma_spelling_read_back, spelling, Token};
use crate::parser::expression::{Expression, StructLiteralField};
use crate::parser::shape::{expr_size, exprs_size, fields_size, lemma_exprs_size};
use crate::typechecker::checker::{accepts, infix_rejected, infix_type, method_key, operand_demand};
use crate::typechecker::env::lookup_in;
use crate::typechecker::error::ErrorView;
use crate::typechecker::types::{debug_text, TyView};
use crate::typechecker::typing::{
    fields_err, first_field, lemma_fields_err, method_call_ty, static_method, ty_of, value_method_sig, Typing,
};

verus! {

/// No lambda is written in the parts of the expression that the checker
/// types (a block's or a match's body is not typed as an expression).
pub open spec fn lambda_free(e: Expression) -> bool
    decreases e,
{
    match e {
        Expression::Lambda { .. } => false,
        Expression::StructLiteral { fields, .. } => fields_lambda_free(fields@),
        Expression::Prefix { right, .. } => lambda_free(*right),
        Expression::Infix { left, right, .. } => lambda_free(*left) && lambda_free(*right),
        Expression::Index { left, index, .. } => lambda_free(*left) && lambda_free(*index),
        Expression::Call { function, args, .. } => lambda_free(*function) && exprs_lambda_free(args@),
        Expression::Field { object, .. } => lambda_free(*object),
        Expression::MethodCall { object, args, .. } => lambda_free(*object) && exprs_lambda_free(args@),
        Expression::Range { start, end, .. } => (match start {
            Some(s) => lambda_free(*s),
            None => true,
        }) && (match end {
            Some(x) => lambda_free(*x),
            None => true,
        }),
        _ => true,
    }
}

pub open spec fn exprs_lambda_free(s: Seq<Expression>) -> bool
    decreases s,
{
    if s.len() == 0 {
        true
    } else {
        exprs_lambda_free(s.drop_last()) && lambda_free(s.last())
    }
}

pub open spec fn fields_lambda_free(s: Seq<StructLiteralField>) -> bool
    decreases s,
{
    if s.len() == 0 {
        true
    } else {
        fields_lambda_free(s.drop_last()) && lambda_free(*s.last().field_val)
    }
}

pub proof fn lemma_exprs_lambda_free(s: Seq<Expression>)
    ensures
        exprs_lambda_free(s) <==> forall|i: int| 0 <= i < s.len() ==> lambda_free(#[trigger] s[i]),
    decreases s.len(),
{
    if s.len() > 0 {
        lemma_exprs_lambda_free(s.drop_last());
        assert(forall|i: int| 0 <= i < s.len() - 1 ==> s.drop_last()[i] == s[i]);
    }
}

pub proof fn lemma_fields_lambda_free(s: Seq<StructLiteralField>)
    ensures
        fields_lambda_free(s) <==> forall|i: int| 0 <= i < s.len() ==> lambda_free(*(#[trigger] s[i]).field_val),
    decreases s.len(),
{
    if s.len() > 0 {
        lemma_fields_lambda_free(s.drop_last());
        assert(forall|i: int| 0 <= i < s.len() - 1 ==> s.drop_last()[i] == s[i]);
    }
}

/// What checking a value of type `actual` where `expected` is wanted
/// reports: a mismatch at `span`, unless the type is accepted.
pub open spec fn expect_errs(actual: TyView, expected: TyView, span: Span) -> Seq<ErrorView> {
    if accepts(actual, expected) {
        Seq::empty()
    } else {
        seq![ErrorView::Mismatch { expected, found: actual, span }]
    }
}

/// What checking `l op r` reports, for operands of types `l` and `r`: the
/// operands of the wrong type (at `expr_span`) where the operator demands
/// one, else an operator that does not apply (at `span`).
pub open spec fn infix_errs(op: Token, l: TyView, r: TyView, span: Span, expr_span: Span) -> Seq<ErrorView> {
    match operand_demand(op) {
        Some(want) => expect_errs(l, want, expr_span) + expect_errs(r, want, expr_span),
        None => if infix_rejected(op, l, r) {
            seq![ErrorView::InvalidBinaryOperator { operator: op, left: l, right: r, span }]
        } else {
            Seq::empty()
        },
    }
}

/// The arithmetic operators `+ - * / **` take two ints or two floats: the
/// result has the operands' type and nothing is reported (`7.0 / 2.0` is a
/// float, `7 / 2` an int); an int with a float is reported as an operator
/// that does not apply, and the result is the error type.
pub proof fn law_arithmetic_operators(op: Token, l: TyView, r: TyView, span: Span, expr_span: Span)
    requires
        spelling(op) == Some(seq!['+']) || spelling(op) == Some(seq!['-']) || spelling(op) == Some(seq!['*'])
            || spelling(op) == Some(seq!['/']) || spelling(op) == Some(seq!['*', '*']),
    ensures
        (l is Int && r is Int) || (l is Float && r is Float) ==> infix_type(op, l, r) == l && infix_errs(
            op,
            l,
            r,
            span,
            expr_span,
        ) == Seq::<ErrorView>::empty(),
        (l is Int && r is Float) || (l is Float && r is Int) ==> infix_type(op, l, r) == TyView::Error && infix_errs(
            op,
            l,
            r,
            span,
            expr_span,
        ) == seq![ErrorView::InvalidBinaryOperator { operator: op, left: l, right: r, span }],
{
    lemma_spelling_read_back(op);
}

/// `%` takes two ints and gives an int, reporting nothing; on two floats it
/// is reported as an operator that does not apply.
pub proof fn law_modulus_on_ints(op: Token, l: TyView, r: TyView, span: Span, expr_span: Span)
    requires
        spelling(op) == Some(seq!['%']),
    ensures
        l is Int && r is Int ==> infix_type(op, l, r) == TyView::Int && infix_errs(op, l, r, span, expr_span)
            == Seq::<ErrorView>::empty(),
        l is Float && r is Float ==> infix_type(op, l, r) == TyView::Error && infix_errs(op, l, r, span, expr_span)
            == seq![ErrorView::InvalidBinaryOperator { operator: op, left: l, right: r, span }],
{
    lemma_spelling_read_back(op);
}

/// The comparisons `<`, `>`, `<=` and `>=` give a bool: on two ints or two
/// floats nothing is reported; an int compared with a float is reported as
/// an operator that does not apply, and the result is still a bool.
pub proof fn law_comparison_operators(op: Token, l: TyView, r: TyView, span: Span, expr_span: Span)
    requires
        spelling(op) == Some(seq!['<']) || spelling(op) == Some(seq!['>']) || spelling(op) == Some(seq!['<', '='])
            || spelling(op) == Some(seq!['>', '=']),
    ensures
        (l is Int && r is Int) || (l is Float && r is Float) ==> infix_type(op, l, r) == TyView::Bool && infix_errs(
            op,
            l,
            r,
            span,
            expr_span,
        ) == Seq::<ErrorView>::empty(),
        (l is Int && r is Float) || (l is Float && r is Int) ==> infix_type(op, l, r) == TyView::Bool && infix_errs(
            op,
            l,
            r,
            span,
            expr_span,
        ) == seq![ErrorView::InvalidBinaryOperator { operator: op, left: l, right: r, span }],
{
    lemma_spelling_read_back(op);
}

/// `==` and `!=` give a bool on two operands of one type, reporting
/// nothing; on operands of different types (neither an error) they are
/// reported as an operator that does not apply, and give the error type.
pub proof fn law_equality_operators(op: Token, l: TyView, r: TyView, span: Span, expr_span: Span)
    requires
        spelling(op) == Some(seq!['=', '=']) || spelling(op) == Some(seq!['!', '=']),
        !(l is Error),
        !(r is Error),
    ensures
        l == r ==> infix_type(op, l, r) == TyView::Bool && infix_errs(op, l, r, span, expr_span) == Seq::<
            ErrorView,
        >::empty(),
        l != r ==> infix_type(op, l, r) == TyView::Error && infix_errs(op, l, r, span, expr_span) == seq![
            ErrorView::InvalidBinaryOperator { operator: op, left: l, right: r, span },
        ],
{
    lemma_spelling_read_back(op);
}

/// What checking `op r` reports, for an operand of type `r`.
pub open spec fn prefix_errs(op: Token, r: TyView, span: Span, expr_span: Span) -> Seq<ErrorView> {
    if op is LogicNot {
        expect_errs(r, TyView::Bool, expr_span)
    } else if op is BitNot {
        expect_errs(r, TyView::Int, expr_span)
    } else if op is Subtract {
        if r is Int || r is Float {
            Seq::empty()
        } else {
            seq![ErrorView::InvalidUnaryOperator { operator: op, operand: r, span }]
        }
    } else {
        Seq::empty()
    }
}

/// What `object.name` reports once the object has the type `object_ty`.
pub open spec fn field_errs(g: Typing, object_ty: TyView, name: Seq<char>, span: Span) -> Seq<ErrorView> {
    match object_ty {
        TyView::Struct(s) => if g.structs.contains_key(s) {
            if first_field(g.structs[s], name) is Some {
                Seq::empty()
            } else {
                seq![ErrorView::UnknownField { struct_name: s, field: name, span }]
            }
        } else {
            seq![ErrorView::UnknownName { name, span }]
        },
        TyView::Error => Seq::empty(),
        _ => seq![ErrorView::NoFields { ty: object_ty, span }],
    }
}


/// The errors the checker reports for `e`, in order, where the context
/// expects `expected`.
pub open spec fn errs_of(g: Typing, e: Expression, expected: Option<TyView>) -> Seq<ErrorView>
    decreases expr_size(e), 0int,
{
    match e {
        Expression::Identifier { name, .. } => if lookup_in(g.scopes, name@) is None {
            seq![ErrorView::UnknownName { name: name@, span: e.spec_span() }]
        } else {
            Seq::empty()
        },
        Expression::Infix { left, operator, right, span } => errs_of(g, *left, None) + errs_of(g, *right, None)
            + infix_errs(operator, ty_of(g, *left, None), ty_of(g, *right, None), span, e.spec_span()),
        Expression::Prefix { operator, right, span } => errs_of(g, *right, None) + prefix_errs(
            operator,
            ty_of(g, *right, None),
            span,
            e.spec_span(),
        ),
        Expression::Range { start, end, .. } => {
            let (start_errs, start_ty) = match start {
                Some(s) => (errs_of(g, *s, None), ty_of(g, *s, None)),
                None => (Seq::empty(), TyView::Int),
            };
            let (end_errs, end_ty) = match end {
                Some(x) => (errs_of(g, *x, None), ty_of(g, *x, None)),
                None => (Seq::empty(), TyView::Int),
            };
            start_errs + end_errs + expect_errs(start_ty, TyView::Int, e.spec_span()) + expect_errs(
                end_ty,
                TyView::Int,
                e.spec_span(),
            )
        },
        Expression::Index { left, index, span } => {
            let lt = ty_of(g, *left, None);
            errs_of(g, *left, None) + errs_of(g, *index, None) + expect_errs(ty_of(g, *index, None), TyView::Int, span)
                + if lt is String || lt is Error {
                Seq::empty()
            } else {
                seq![
                    ErrorView::Unsupported {
                        desc: "Type `"@ + debug_text(lt) + "` doesn't support indexing"@,
                        span,
                    },
                ]
            }
        },
        Expression::Call { function, args, span } => call_errs(g, *function, args@, span),
        Expression::StructLiteral { name, fields, span } => struct_literal_errs(g, name@, fields@, span),
        Expression::Field { object, name, span } => errs_of(g, *object, None) + field_errs(
            g,
            ty_of(g, *object, None),
            name@,
            span,
        ),
        Expression::MethodCall { object, name, args, span } => method_call_errs(g, *object, name@, args@, span),
        _ => Seq::empty(),
    }
}

/// What a call `function(args)` at `span` reports. A call of a name that
/// is not bound types its first argument first: when that is a struct with
/// a method of the name, the call is the method's.
pub open spec fn call_errs(g: Typing, function: Expression, args: Seq<Expression>, span: Span) -> Seq<ErrorView>
    decreases expr_size(function) + exprs_size(args), 1int,
{
    proof {
        lemma_exprs_size(args);
    }
    let fname = match function {
        Expression::Identifier { name, .. } => name@,
        _ => "<function value>"@,
    };
    let by_first = match function {
        Expression::Identifier { name, .. } => lookup_in(g.scopes, name@) is None && args.len() > 0,
        _ => false,
    };
    let first_errs = if by_first {
        errs_of(g, args[0], None)
    } else {
        Seq::empty()
    };
    let method = if by_first {
        match ty_of(g, args[0], None) {
            TyView::Struct(s) => if g.funcs.contains_key(method_key(s, fname)) {
                Some(g.funcs[method_key(s, fname)])
            } else {
                None
            },
            _ => None,
        }
    } else {
        None
    };
    first_errs + match method {
        Some(sig) => if args.len() != sig.params.len() {
            seq![
                ErrorView::ArityMismatch {
                    name: fname,
                    expected: sig.params.len() as usize,
                    found: args.len() as usize,
                    span,
                },
            ]
        } else {
            args_errs(g, args, sig.params, 0)
        },
        None => errs_of(g, function, None) + match ty_of(g, function, None) {
            TyView::Fn { params, .. } => if args.len() != params.len() {
                seq![
                    ErrorView::ArityMismatch {
                        name: fname,
                        expected: params.len() as usize,
                        found: args.len() as usize,
                        span,
                    },
                ]
            } else {
                args_errs(g, args, params, 0)
            },
            TyView::Error => Seq::empty(),
            callee => seq![ErrorView::NotCallable { name: fname, ty: callee, span }],
        },
    }
}

/// What a struct literal of the struct `name` reports: an unknown name, or
/// what typing its values reports.
pub open spec fn struct_literal_errs(g: Typing, name: Seq<char>, fields: Seq<StructLiteralField>, span: Span) -> Seq<
    ErrorView,
>
    decreases fields_size(fields), 2int,
{
    if g.structs.contains_key(name) {
        fields_errs(g, fields)
    } else {
        seq![ErrorView::UnknownName { name, span }]
    }
}

/// What `object.name(args)` at `span` reports: a static call `S.m(..)` or a
/// call of a global function through an unbound name checks the arguments
/// against the signature; else the object is typed and the method looked up.
pub open spec fn method_call_errs(
    g: Typing,
    object: Expression,
    name: Seq<char>,
    args: Seq<Expression>,
    span: Span,
) -> Seq<ErrorView>
    decreases expr_size(object) + exprs_size(args), 3int,
{
    let (is_static, static_sig) = static_method(g, object, name);
    if is_static {
        match static_sig {
            Some(sig) => if args.len() != sig.params.len() {
                seq![
                    ErrorView::ArityMismatch {
                        name,
                        expected: sig.params.len() as usize,
                        found: args.len() as usize,
                        span,
                    },
                ]
            } else {
                args_errs(g, args, sig.params, 0)
            },
            None => seq![ErrorView::UnknownName { name, span }],
        }
    } else {
        errs_of(g, object, None) + method_errs(g, object, name, args, ty_of(g, object, None), span)
    }
}

/// What `object.name(args)` reports, called on a value of type `ot`, after
/// the object's own errors.
pub open spec fn method_errs(
    g: Typing,
    object: Expression,
    name: Seq<char>,
    args: Seq<Expression>,
    ot: TyView,
    span: Span,
) -> Seq<ErrorView>
    decreases exprs_size(args), 2int,
{
    let has_key = ot is Struct || ot is String || ot is Int || ot is Float || ot is Bool;
    if !has_key {
        if ot is Error {
            Seq::empty()
        } else {
            seq![ErrorView::NoSuchMethod { ty: ot, method: name, span }]
        }
    } else {
        match value_method_sig(g, ot, name) {
            Some(sig) => if sig.params.len() == 0 {
                seq![ErrorView::ArityMismatch { name, expected: 1, found: 0, span }]
            } else {
                expect_errs(ot, sig.params[0], object.spec_span()) + if args.len() != sig.params.len() - 1 {
                    seq![
                        ErrorView::ArityMismatch {
                            name,
                            expected: (sig.params.len() - 1) as usize,
                            found: args.len() as usize,
                            span,
                        },
                    ]
                } else {
                    args_errs(g, args, sig.params, 1)
                }
            },
            None => seq![ErrorView::NoSuchMethod { ty: ot, method: name, span }],
        }
    }
}

/// Uniform function call syntax on struct values: for a value `o` of a
/// struct type `S` with no method `S.m` of its own, `o.m(args)` calls the
/// top-level function `m` whose first parameter has type `S`. The call has
/// the result type of `m`, and it reports the object's own errors, then the
/// arguments checked against the remaining parameters, and no error of its
/// own; with a wrong number of arguments it reports the arity against the
/// remaining parameters.
pub proof fn law_method_call_on_struct_value(
    g: Typing,
    o: Expression,
    m: Seq<char>,
    args: Seq<Expression>,
    span: Span,
    s: Seq<char>,
)
    requires
        ty_of(g, o, None) == TyView::Struct(s),
        !static_method(g, o, m).0,
        !g.funcs.contains_key(method_key(s, m)),
        g.funcs.contains_key(m),
        g.funcs[m].params.len() > 0,
        g.funcs[m].params[0] == TyView::Struct(s),
    ensures
        method_call_ty(g, o, m, ty_of(g, o, None)) == g.funcs[m].ret,
        args.len() + 1 == g.funcs[m].params.len() ==> method_call_errs(g, o, m, args, span) == errs_of(g, o, None)
            + args_errs(g, args, g.funcs[m].params, 1),
        args.len() + 1 != g.funcs[m].params.len() ==> method_call_errs(g, o, m, args, span) == errs_of(g, o, None)
            + seq![
            ErrorView::ArityMismatch {
                name: m,
                expected: (g.funcs[m].params.len() - 1) as usize,
                found: args.len() as usize,
                span,
            },
        ],
{
    assert(value_method_sig(g, TyView::Struct(s), m) == Some(g.funcs[m]));
    assert(expect_errs(TyView::Struct(s), g.funcs[m].params[0], o.spec_span()) =~= Seq::<ErrorView>::empty());
    assert(Seq::<ErrorView>::empty() + args_errs(g, args, g.funcs[m].params, 1) =~= args_errs(g, args, g.funcs[m].params, 1));
}

/// What checking each argument against its parameter type (the parameters
/// counted from `skip`) reports, in order.
pub open spec fn args_errs(g: Typing, args: Seq<Expression>, params: Seq<TyView>, skip: int) -> Seq<ErrorView>
    decreases exprs_size(args), 1int,
{
    if args.len() == 0 {
        Seq::empty()
    } else {
        proof {
            assert(expr_size(args.last()) >= 1);
        }
        let want = params[args.len() - 1 + skip];
        args_errs(g, args.drop_last(), params, skip) + errs_of(g, args.last(), Some(want)) + expect_errs(
            ty_of(g, args.last(), Some(want)),
            want,
            args.last().spec_span(),
        )
    }
}

/// What typing the values of a struct literal reports: the errors of each
/// value, up to the first whose type is the error type.
pub open spec fn fields_errs(g: Typing, fields: Seq<StructLiteralField>) -> Seq<ErrorView>
    decreases fields_size(fields), 1int,
{
    if fields.len() == 0 {
        Seq::empty()
    } else {
        proof {
            assert(expr_size(*fields.last().field_val) >= 1);
        }
        if fields_err(g, fields.drop_last()) {
            fields_errs(g, fields.drop_last())
        } else {
            fields_errs(g, fields.drop_last()) + errs_of(g, *fields.last().field_val, None)
        }
    }
}

/// Once a value of the error type is met, typing stops: the values after
/// it report nothing.
pub proof fn lemma_fields_errs_stop(g: Typing, fields: Seq<StructLiteralField>, j: int)
    requires
        0 <= j <= fields.len(),
        fields_err(g, fields.take(j)),
    ensures
        fields_errs(g, fields) == fields_errs(g, fields.take(j)),
    decreases fields.len(),
{
    if fields.len() == j {
        assert(fields.take(j) =~= fields);
    } else {
        let t = fields.drop_last();
        assert(t.take(j) =~= fields.take(j));
        lemma_fields_errs_stop(g, t, j);
        lemma_fields_err(g, fields.take(j));
        lemma_fields_err(g, t);
        let k = choose|k: int| 0 <= k < j && (ty_of(g, *(#[trigger] fields.take(j)[k]).field_val, None) is Error);
        assert(t[k] == fields.take(j)[k]);
    }
}

} // verus!
