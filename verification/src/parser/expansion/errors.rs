//! Why a definition could not be resolved.

use crate::parser::utils::utils::Marker;
use crate::parser::SyntaxKind;
use std::ops::Range;
use vstd::prelude::*;

verus! {

/// The kinds of failures of the resolver.
#[derive(Debug, PartialEq, Eq)]
#[allow(inconsistent_fields)]
pub enum ResolverErrorKind {
    /// Another token stands where `expected` had to stand.
    UnexpectedToken { expected: SyntaxKind, found: SyntaxKind },
    /// A token that opens or closes a block stands inside the default value of an argument.
    UnexpectedOpeningToken(SyntaxKind),
    /// The tokens `name` are no name: the token of the kind `kind` cannot begin one.
    InvalidName { kind: SyntaxKind, name: Range<usize> },
    /// More optional arguments without a name are given than the count of arguments allows.
    WrongArgumentCount { expected: usize, found: usize },
    /// The text of a token could not be had.
    FailedToRetrieveText,
    /// The text of the tokens in the range is no number.
    FailedToRetrieveTextRange(Range<usize>),
    /// The text of the tokens in the range could not be read.
    FailedToParseText(Range<usize>),
    /// The text ends inside the definition.
    EofReached,
}

/// A failure of the resolver and the index of the token at which it stopped.
#[derive(Debug, PartialEq, Eq)]
pub struct ResolverError {
    pub idx: usize,
    pub source: ResolverErrorKind,
}

/// What a function of the resolver returns: nothing, or the reason of its failure.
pub type ResolverResult = Result<(), ResolverErrorKind>;

impl ResolverErrorKind {
    /// The failure with the place at which the resolver stopped.
    pub fn attach_marker(self, marker: Marker) -> (e: ResolverError)
        ensures
            e == (ResolverError { idx: marker.index(), source: self }),
    {
        ResolverError { idx: marker.get(), source: self }
    }
}

} // verus!
