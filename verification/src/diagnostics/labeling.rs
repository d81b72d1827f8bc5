use vstd::prelude::*;

use crate::lexer::span::Span;

verus! {

/// A place in a file that a report points at, with a note.
#[derive(Clone, Debug, PartialEq)]
pub struct Label {
    pub file_path: String,
    pub span: Span,
    pub message: String,
    pub style: LabelStyle,
}

/// What a label holds, its texts as char sequences.
pub struct LabelView {
    pub file_path: Seq<char>,
    pub span: Span,
    pub message: Seq<char>,
    pub style: LabelStyle,
}

impl View for Label {
    type V = LabelView;

    open spec fn view(&self) -> LabelView {
        LabelView { file_path: self.file_path@, span: self.span, message: self.message@, style: self.style }
    }
}

/// The views of a list of labels.
pub open spec fn labels_view(v: Seq<Label>) -> Seq<LabelView> {
    Seq::new(v.len(), |i: int| v[i]@)
}

/// A primary label marks the error itself; a secondary one, a place that
/// explains it.
#[derive(Clone, Copy, Debug, PartialEq, Eq, Structural)]
pub enum LabelStyle {
    Primary,
    Secondary,
}

impl Label {
    pub fn primary(span: Span, message: String, file_path: String) -> (l: Self)
        ensures
            l == (Label { file_path, span, message, style: LabelStyle::Primary }),
    {
        Label { file_path, span, message, style: LabelStyle::Primary }
    }

    pub fn secondary(span: Span, message: String, file_path: String) -> (l: Self)
        ensures
            l == (Label { file_path, span, message, style: LabelStyle::Secondary }),
    {
        Label { file_path, span, message, style: LabelStyle::Secondary }
    }
}

} // verus!
