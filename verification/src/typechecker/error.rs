use vstd::prelude::*;

use crate::lexer::span::Span;
use crate::lexer::token::Token;
use crate::typechecker::types::{Ty, TyView};

verus! {

/// How a name was bound.
#[derive(Debug, Clone, Copy, PartialEq, Eq, Structural)]
pub enum BindingKind {
    Var,
    Let,
    Const,
    Param,
}

impl BindingKind {
    pub open spec fn spec_is_mutable(self) -> bool {
        self is Var
    }

    /// Only `var` bindings may be assigned again.
    #[verifier::when_used_as_spec(spec_is_mutable)]
    pub fn is_mutable(self) -> (r: bool)
        ensures
            r == self.spec_is_mutable(),
    {
        matches!(self, BindingKind::Var)
    }
}

/// What kind of entity was defined twice.
#[derive(Debug, Clone, Copy, PartialEq, Eq, Structural)]
pub enum DefinitionKind {
    Var,
    Fun,
    Struct,
}

/// `break` or `continue`.
#[derive(Debug, Clone, Copy, PartialEq, Eq, Structural)]
pub enum LoopControlKind {
    Break,
    Continue,
}

/// A semantic error found by the type checker.
#[derive(Debug, PartialEq)]
pub enum TypeError {
    Mismatch { expected: Ty, found: Ty, span: Span },
    UnknownName { name: String, span: Span },
    NotCallable { name: String, ty: Ty, span: Span },
    ArityMismatch { name: String, expected: usize, found: usize, span: Span },
    UnknownField { struct_name: String, field: String, span: Span },
    InvalidBinaryOperator { operator: Token, left: Box<Ty>, right: Box<Ty>, span: Span },
    InvalidUnaryOperator { operator: Token, operand: Ty, span: Span },
    NoFields { ty: Ty, span: Span },
    NoSuchMethod { ty: Ty, method: String, span: Span },
    MethodFoundAsGlobal { ty: Ty, method: String, span: Span, help: String },
    Unsupported { desc: String, span: Span },
    DuplicateDefinition { name: String, first_span: Span, second_span: Span, def_kind: DefinitionKind },
    ConflictingEntryPoint { first_decl_span: Span, second_decl_span: Span },
    AssignmentToImmutable { name: String, kind: BindingKind, decl_span: Span, assign_span: Span },
    OutsideLoop { kind: LoopControlKind, span: Span },
    MissingReturn { name: String, func_span: Span, close_brace_span: Span },
    NotFullMatch { target_name: String, missed_patterns: String, span: Span },
}

/// What an error holds, its types and texts as their views.
pub enum ErrorView {
    Mismatch { expected: TyView, found: TyView, span: Span },
    UnknownName { name: Seq<char>, span: Span },
    NotCallable { name: Seq<char>, ty: TyView, span: Span },
    ArityMismatch { name: Seq<char>, expected: usize, found: usize, span: Span },
    UnknownField { struct_name: Seq<char>, field: Seq<char>, span: Span },
    InvalidBinaryOperator { operator: Token, left: TyView, right: TyView, span: Span },
    InvalidUnaryOperator { operator: Token, operand: TyView, span: Span },
    NoFields { ty: TyView, span: Span },
    NoSuchMethod { ty: TyView, method: Seq<char>, span: Span },
    MethodFoundAsGlobal { ty: TyView, method: Seq<char>, span: Span, help: Seq<char> },
    Unsupported { desc: Seq<char>, span: Span },
    DuplicateDefinition { name: Seq<char>, first_span: Span, second_span: Span, def_kind: DefinitionKind },
    ConflictingEntryPoint { first_decl_span: Span, second_decl_span: Span },
    AssignmentToImmutable { name: Seq<char>, kind: BindingKind, decl_span: Span, assign_span: Span },
    OutsideLoop { kind: LoopControlKind, span: Span },
    MissingReturn { name: Seq<char>, func_span: Span, close_brace_span: Span },
    NotFullMatch { target_name: Seq<char>, missed_patterns: Seq<char>, span: Span },
}

impl View for TypeError {
    type V = ErrorView;

    open spec fn view(&self) -> ErrorView {
        match *self {
            TypeError::Mismatch { expected, found, span } => ErrorView::Mismatch {
                expected: expected@,
                found: found@,
                span,
            },
            TypeError::UnknownName { name, span } => ErrorView::UnknownName { name: name@, span },
            TypeError::NotCallable { name, ty, span } => ErrorView::NotCallable { name: name@, ty: ty@, span },
            TypeError::ArityMismatch { name, expected, found, span } => ErrorView::ArityMismatch {
                name: name@,
                expected,
                found,
                span,
            },
            TypeError::UnknownField { struct_name, field, span } => ErrorView::UnknownField {
                struct_name: struct_name@,
                field: field@,
                span,
            },
            TypeError::InvalidBinaryOperator { operator, left, right, span } => ErrorView::InvalidBinaryOperator {
                operator,
                left: (*left)@,
                right: (*right)@,
                span,
            },
            TypeError::InvalidUnaryOperator { operator, operand, span } => ErrorView::InvalidUnaryOperator {
                operator,
                operand: operand@,
                span,
            },
            TypeError::NoFields { ty, span } => ErrorView::NoFields { ty: ty@, span },
            TypeError::NoSuchMethod { ty, method, span } => ErrorView::NoSuchMethod { ty: ty@, method: method@, span },
            TypeError::MethodFoundAsGlobal { ty, method, span, help } => ErrorView::MethodFoundAsGlobal {
                ty: ty@,
                method: method@,
                span,
                help: help@,
            },
            TypeError::Unsupported { desc, span } => ErrorView::Unsupported { desc: desc@, span },
            TypeError::DuplicateDefinition { name, first_span, second_span, def_kind } => ErrorView::DuplicateDefinition {
                name: name@,
                first_span,
                second_span,
                def_kind,
            },
            TypeError::ConflictingEntryPoint { first_decl_span, second_decl_span } => ErrorView::ConflictingEntryPoint {
                first_decl_span,
                second_decl_span,
            },
            TypeError::AssignmentToImmutable { name, kind, decl_span, assign_span } => ErrorView::AssignmentToImmutable {
                name: name@,
                kind,
                decl_span,
                assign_span,
            },
            TypeError::OutsideLoop { kind, span } => ErrorView::OutsideLoop { kind, span },
            TypeError::MissingReturn { name, func_span, close_brace_span } => ErrorView::MissingReturn {
                name: name@,
                func_span,
                close_brace_span,
            },
            TypeError::NotFullMatch { target_name, missed_patterns, span } => ErrorView::NotFullMatch {
                target_name: target_name@,
                missed_patterns: missed_patterns@,
                span,
            },
        }
    }
}

/// The views of a list of errors.
pub open spec fn errors_view(s: Seq<TypeError>) -> Seq<ErrorView> {
    Seq::new(s.len(), |i: int| s[i]@)
}

/// One more error: its view comes after the others'.
pub proof fn lemma_errors_view_push(s: Seq<TypeError>, e: TypeError)
    ensures
        errors_view(s.push(e)) == errors_view(s).push(e@),
{
    assert(errors_view(s.push(e)) =~= errors_view(s).push(e@));
}

} // verus!
