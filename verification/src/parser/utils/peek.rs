//! Two items of lookahead over a sequence.

use vstd::prelude::*;

verus! {

/// Walks a sequence of items and shows the next two of them without consuming them.
pub struct DualPeekIterator<T> {
    iter: Vec<T>,
    next: usize,
}

/// A walk over `iter` that begins at its first item.
pub fn peek_two<T: Copy>(iter: Vec<T>) -> (r: DualPeekIterator<T>)
    ensures
        r@ == iter@,
        r.items() == iter@,
        r.consumed() == 0,
        r.wf(),
{
    let r = DualPeekIterator { iter, next: 0 };
    assert(r@ =~= iter@);
    r
}

impl<T: Copy> View for DualPeekIterator<T> {
    type V = Seq<T>;

    /// The items that have not been consumed.
    closed spec fn view(&self) -> Seq<T> {
        self.iter@.skip(self.next as int)
    }
}

impl<T: Copy> DualPeekIterator<T> {
    /// All the items of the walk, consumed or not.
    pub closed spec fn items(&self) -> Seq<T> {
        self.iter@
    }

    /// The number of items consumed.
    pub closed spec fn consumed(&self) -> int {
        self.next as int
    }

    /// The walk stands inside its sequence.
    pub closed spec fn wf(&self) -> bool {
        self.next <= self.iter@.len()
    }

    /// What is left is what lies behind the consumed items.
    pub proof fn lemma_view(&self)
        requires
            self.wf(),
        ensures
            self@ == self.items().skip(self.consumed()),
            0 <= self.consumed() <= self.items().len(),
    {
    }

    /// The sequence that the walk goes over.
    pub fn base_iter(&self) -> (r: &Vec<T>)
        ensures
            r@ == self.items(),
    {
        &self.iter
    }

    /// The next item.
    pub fn peek_first(&self) -> (r: Option<&T>)
        requires
            self.wf(),
        ensures
            match r {
                Some(item) => self@.len() > 0 && *item == self@[0],
                None => self@.len() == 0,
            },
    {
        if self.next < self.iter.len() {
            Some(&self.iter[self.next])
        } else {
            None
        }
    }

    /// The item after the next one.
    pub fn peek_second(&self) -> (r: Option<&T>)
        requires
            self.wf(),
        ensures
            match r {
                Some(item) => self@.len() > 1 && *item == self@[1],
                None => self@.len() <= 1,
            },
    {
        if self.next < self.iter.len() && self.next + 1 < self.iter.len() {
            Some(&self.iter[self.next + 1])
        } else {
            None
        }
    }

    /// Consumes the next item and returns it.
    pub fn next(&mut self) -> (r: Option<T>)
        requires
            old(self).wf(),
        ensures
            final(self).wf(),
            final(self).items() == old(self).items(),
            r == (if old(self)@.len() > 0 {
                Some(old(self)@[0])
            } else {
                None
            }),
            r is Some ==> final(self)@ == old(self)@.drop_first(),
            r is Some ==> final(self).consumed() == old(self).consumed() + 1,
            r is None ==> final(self)@ == old(self)@,
            r is None ==> final(self).consumed() == old(self).consumed(),
    {
        if self.next < self.iter.len() {
            let first = self.iter[self.next];
            self.next += 1;
            assert(self@ =~= old(self)@.drop_first());
            Some(first)
        } else {
            None
        }
    }
}

/// Sequences that can be walked with two items of lookahead.
pub trait Iterutils<T: Copy>: Sized {
    spec fn seq(&self) -> Seq<T>;

    fn peek_two(self) -> (r: DualPeekIterator<T>)
        ensures
            r@ == self.seq(),
            r.items() == self.seq(),
            r.consumed() == 0,
            r.wf(),
    ;
}

impl<T: Copy> Iterutils<T> for Vec<T> {
    open spec fn seq(&self) -> Seq<T> {
        self@
    }

    fn peek_two(self) -> (r: DualPeekIterator<T>) {
        peek_two(self)
    }
}

} // verus!
