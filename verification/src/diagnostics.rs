//! Diagnostics rendering: labelled, card-style reports of type errors.
pub mod diagnostics;
pub mod labeling;
pub mod paint;
pub mod parse_errors;
pub mod token_text;
pub mod typecheck_errors;
