use vstd::prelude::*;

verus! {

/// Why C code could not be generated.
#[derive(Debug, PartialEq)]
pub enum CodegenError {
    Unsupported(String),
    Unexpected(String),
}

} // verus!
