//! Byte spans into a source file.

use std::ops::Range;
use vstd::prelude::*;

verus! {

/// Marks a type that identifies the file a span points into.
pub trait SpanFile {

}

/// The file that is being processed.
#[derive(Debug, Clone, Copy)]
pub struct CurrentFile {}

impl CurrentFile {
    pub fn new() -> CurrentFile {
        CurrentFile {  }
    }
}

impl SpanFile for CurrentFile {

}

/// A run of `len` bytes that begins at byte `start` of a file.
#[derive(Debug, Clone, Copy)]
pub struct Span<File: SpanFile> {
    start: usize,
    len: usize,
    file: File,
}

/// A value together with the span it was read from.
#[derive(Debug, Clone, Copy)]
pub struct Spanned<T, File: SpanFile> {
    pub value: T,
    pub span: Span<File>,
}

impl<File: SpanFile> Span<File> {
    /// The byte at which the span begins.
    pub closed spec fn start(&self) -> usize {
        self.start
    }

    /// The number of bytes of the span.
    pub closed spec fn spec_len(&self) -> usize {
        self.len
    }

    pub fn new(file: File, start: usize, len: usize) -> (s: Span<File>)
        ensures
            s.start() == start,
            s.spec_len() == len,
    {
        Span { file, start, len }
    }

    /// The half-open byte range of the span. The end of the range has to fit the machine word.
    pub fn span(&self) -> (r: Range<usize>)
        requires
            self.start() + self.spec_len() <= usize::MAX,
        ensures
            r.start == self.start(),
            r.end == self.start() + self.spec_len(),
    {
        self.start..(self.start + self.len)
    }

    #[verifier::when_used_as_spec(spec_len)]
    pub fn len(&self) -> (n: usize)
        ensures
            n == self.spec_len(),
    {
        self.len
    }
}

} // verus!
