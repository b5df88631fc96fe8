//! Marks of the events of the parser.

use vstd::prelude::*;

verus! {

/// The index of an event that opens a node.
#[derive(Debug, Copy, Clone, PartialEq, Eq, Structural)]
pub struct OpenMark(usize);

impl OpenMark {
    pub fn new(idx: usize) -> (m: OpenMark)
        ensures
            m.index() == idx,
    {
        OpenMark(idx)
    }

    pub closed spec fn index(&self) -> usize {
        self.0
    }

    /// The index that the mark holds.
    #[verifier::when_used_as_spec(index)]
    pub fn get(&self) -> (idx: usize)
        ensures
            idx == self.index(),
    {
        self.0
    }
}

/// The index of the event that opened a node which has been closed.
#[derive(Debug, Copy, Clone, PartialEq, Eq, Structural)]
pub struct CloseMark(usize);

impl CloseMark {
    pub fn new(idx: usize) -> (m: CloseMark)
        ensures
            m.index() == idx,
    {
        CloseMark(idx)
    }

    pub closed spec fn index(&self) -> usize {
        self.0
    }

    /// The index that the mark holds.
    #[verifier::when_used_as_spec(index)]
    pub fn get(&self) -> (idx: usize)
        ensures
            idx == self.index(),
    {
        self.0
    }
}

} // verus!
