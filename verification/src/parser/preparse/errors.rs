//! What the classifier records of a malformed name.

use vstd::prelude::*;

verus! {

#[derive(Debug, Clone, Copy, PartialEq, Eq, Structural)]
pub enum PreparseErrorKind {
    /// A command name is missing: the backslash is followed by whitespace, a newline, a
    /// comment or the end of the text.
    CommandNameMissing,
    /// An invalid command name, such as a backslash followed by a word that is not ASCII, or
    /// a colon right behind a path separator.
    InvalidCommandName,
    /// An invalid variable name. A variable name consists of ASCII words, numbers and
    /// underscores behind the '@'.
    InvalidVariableName,
}

#[derive(Debug, Clone, Copy, PartialEq, Eq, Structural)]
pub struct PreparseError {
    pub kind: PreparseErrorKind,
    /// The index of the `Error` token that stands for the malformed name.
    pub idx: usize,
}

impl PreparseError {
    pub fn new(kind: PreparseErrorKind, idx: usize) -> (e: PreparseError)
        ensures
            e == (PreparseError { kind, idx }),
    {
        PreparseError { kind, idx }
    }
}

} // verus!
