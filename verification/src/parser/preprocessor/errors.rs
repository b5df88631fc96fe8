//! What the preprocessor misses in a definition.

use crate::parser::SyntaxKind;
use vstd::prelude::*;

verus! {

#[derive(Debug, Clone, Copy, PartialEq, Eq, Structural)]
pub enum PreprocessErrorKind {
    MissingGroupBegin,
    MissingGroupEnd,
    MissingOptionGroupBegin,
    MissingOptionGroupEnd,
}

/// A token of the kind `expected` is missing at the token `idx`, where `found` stands.
#[derive(Debug, Clone, Copy, PartialEq, Eq)]
pub struct PreprocessError {
    pub kind: PreprocessErrorKind,
    pub expected: SyntaxKind,
    pub found: Option<SyntaxKind>,
    pub idx: usize,
}

impl PreprocessError {
    pub fn new(
        kind: PreprocessErrorKind,
        idx: usize,
        expected: SyntaxKind,
        found: Option<SyntaxKind>,
    ) -> (e: PreprocessError)
        ensures
            e == (PreprocessError { kind, idx, expected, found }),
    {
        PreprocessError { kind, idx, expected, found }
    }
}

} // verus!
