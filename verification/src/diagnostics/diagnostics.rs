use vstd::prelude::*;

use crate::diagnostics::labeling::Label;
use crate::lexer::span::Span;

verus! {

/// Something that can be shown to the user as a report on a source file.
pub trait Diagnostics {
    /// Whether a report can be made for the value.
    spec fn can_report(&self) -> bool;

    /// The full report for the value, on the file at `path` whose lines are
    /// `source_lines`.
    fn message(&self, path: &str, source_lines: &Vec<String>) -> String
        requires
            self.can_report(),
    ;

    /// Renders a report: the message, where it is, the source lines the
    /// labels point at, and the help text if any.
    fn report(
        &self,
        path: String,
        main_span: Span,
        message: String,
        labels: &Vec<Label>,
        help: Option<&str>,
        source_lines: &Vec<String>,
    ) -> String
        requires
            labels.len() > 0,
    ;
}

} // verus!
