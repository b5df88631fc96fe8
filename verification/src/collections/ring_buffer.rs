//! A ring buffer of fixed capacity and a walk over a sequence that looks ahead through it.

use vstd::prelude::*;

verus! {

/// A ring buffer with a capacity `N` fixed at compile time. Items leave it in the order in
/// which they came.
pub struct RingBuffer<T, const N: usize> {
    data: Vec<T>,
    start: usize,
    end: usize,
    is_full: bool,
}

impl<T: Copy, const N: usize> View for RingBuffer<T, N> {
    type V = Seq<T>;

    /// The items in the buffer, the oldest first.
    closed spec fn view(&self) -> Seq<T> {
        Seq::new(self.count(), |i: int| self.data@[self.slot(i)])
    }
}

impl<T: Copy, const N: usize> RingBuffer<T, N> {
    /// The number of items in the buffer.
    closed spec fn count(&self) -> nat {
        if self.is_full {
            N as nat
        } else if self.end >= self.start {
            (self.end - self.start) as nat
        } else {
            (N - self.start + self.end) as nat
        }
    }

    /// The place in the store of the item `i`.
    closed spec fn slot(&self, i: int) -> int {
        if self.start + i < N {
            self.start + i
        } else {
            self.start + i - N
        }
    }

    /// The buffer has room for at least one item, its ends lie in the store, and every
    /// place between them holds an item.
    pub closed spec fn wf(&self) -> bool {
        &&& N > 0
        &&& self.start < N
        &&& self.end < N
        &&& self.data@.len() <= N
        &&& (self.is_full ==> self.start == self.end && self.data@.len() == N)
        &&& (self.data@.len() < N ==> self.start <= self.end && self.end == self.data@.len())
    }

    /// An empty buffer. The capacity has to be more than nothing.
    pub fn new() -> (b: RingBuffer<T, N>)
        requires
            N > 0,
        ensures
            b.wf(),
            b@.len() == 0,
    {
        RingBuffer { data: Vec::new(), start: 0, end: 0, is_full: false }
    }

    /// The capacity of the buffer: the greatest number of items that it can hold.
    pub fn capacity(&self) -> (n: usize)
        ensures
            n == N,
    {
        N
    }

    pub fn is_empty(&self) -> (b: bool)
        requires
            self.wf(),
        ensures
            b == (self@.len() == 0),
    {
        self.start == self.end && !self.is_full
    }

    pub fn is_full(&self) -> (b: bool)
        requires
            self.wf(),
        ensures
            b == (self@.len() == N),
    {
        self.is_full
    }

    /// The number of items in the buffer.
    pub fn len(&self) -> (n: usize)
        requires
            self.wf(),
        ensures
            n == self@.len(),
            n <= N,
    {
        if self.is_full {
            N
        } else {
            if self.end >= self.start {
                self.end - self.start
            } else {
                N - self.start + self.end
            }
        }
    }

    /// The place `num` behind `index`, around the end of the store.
    fn wrap_add(&self, index: usize, num: usize) -> (r: usize)
        requires
            N > 0,
            index < N,
            num <= N,
        ensures
            r == (if index + num < N {
                index + num
            } else {
                index + num - N
            }),
    {
        if num >= N - index {
            num - (N - index)
        } else {
            index + num
        }
    }

    /// The item `index`, counted from the oldest one.
    pub fn get(&self, index: usize) -> (r: Option<T>)
        requires
            self.wf(),
        ensures
            r == (if index < self@.len() {
                Some(self@[index as int])
            } else {
                None
            }),
    {
        if index < self.len() {
            let index = self.wrap_add(self.start, index);
            Some(self.data[index])
        } else {
            None
        }
    }

    /// The item `index`, counted from the oldest one, to be changed in its place.
    pub fn get_mut(&mut self, index: usize) -> (r: Option<&mut T>)
        requires
            old(self).wf(),
        ensures
            final(self).wf(),
            index >= old(self)@.len() ==> r is None && final(self)@ == old(self)@,
            index < old(self)@.len() ==> r is Some && *r->0 == old(self)@[index as int]
                && final(self)@ == old(self)@.update(index as int, *final(r->0)),
    {
        if index < self.len() {
            let index = self.wrap_add(self.start, index);
            Some(&mut self.data[index])
        } else {
            None
        }
    }

    /// Appends an item at the end of the buffer; a full buffer hands the item back.
    pub fn enqueue(&mut self, item: T) -> (r: Result<(), T>)
        requires
            old(self).wf(),
        ensures
            final(self).wf(),
            old(self)@.len() == N ==> r == Err::<(), T>(item) && final(self)@ == old(self)@,
            old(self)@.len() < N ==> r is Ok && final(self)@ == old(self)@.push(item),
    {
        if self.is_full {
            return Err(item);
        }
        let index = self.end;
        if index == self.data.len() {
            self.data.push(item);
        } else {
            self.data.set(index, item);
        }
        self.end = self.wrap_add(index, 1);
        if self.end == self.start {
            self.is_full = true;
        }
        assert(self@ =~= old(self)@.push(item));
        Ok(())
    }

    /// Takes the oldest item out of the buffer; `None` if the buffer is empty.
    pub fn dequeue(&mut self) -> (r: Option<T>)
        requires
            old(self).wf(),
        ensures
            final(self).wf(),
            old(self)@.len() == 0 ==> r is None && final(self)@ == old(self)@,
            old(self)@.len() > 0 ==> r == Some(old(self)@[0]) && final(self)@
                == old(self)@.drop_first(),
    {
        if self.is_empty() {
            return None;
        }
        let index = self.start;
        let item = self.data[index];
        self.start = self.wrap_add(index, 1);
        if self.is_full {
            self.is_full = false;
        }
        assert(self@ =~= old(self)@.drop_first());
        Some(item)
    }
}

/// A walk over a sequence of items that is buffered by a ring buffer of size `N`, so that
/// up to `N` items can be looked at before they are consumed.
pub struct RingBufferedIterator<T, const N: usize> {
    iter: Vec<T>,
    next: usize,
    buffer: RingBuffer<T, N>,
}

impl<T: Copy, const N: usize> View for RingBufferedIterator<T, N> {
    type V = Seq<T>;

    /// The items that have not been consumed.
    closed spec fn view(&self) -> Seq<T> {
        self.buffer@ + self.iter@.skip(self.next as int)
    }
}

impl<T: Copy, const N: usize> RingBufferedIterator<T, N> {
    pub closed spec fn wf(&self) -> bool {
        &&& self.buffer.wf()
        &&& self.next <= self.iter@.len()
    }

    /// A walk over `iter` from its first item on.
    pub fn new(iter: Vec<T>) -> (r: RingBufferedIterator<T, N>)
        requires
            N > 0,
        ensures
            r.wf(),
            r@ == iter@,
    {
        let r = RingBufferedIterator { iter, next: 0, buffer: RingBuffer::new() };
        assert(r@ =~= iter@);
        r
    }

    /// The next item, which stays in the walk.
    pub fn peek(&mut self) -> (r: Option<T>)
        requires
            old(self).wf(),
        ensures
            final(self).wf(),
            final(self)@ == old(self)@,
            r == (if old(self)@.len() > 0 {
                Some(old(self)@[0])
            } else {
                None
            }),
    {
        self.peek_nth(0)
    }

    /// The item `n` places behind the next one, which stays in the walk; `None` where the
    /// walk has no such item or the buffer does not reach so far.
    pub fn peek_nth(&mut self, n: usize) -> (r: Option<T>)
        requires
            old(self).wf(),
        ensures
            final(self).wf(),
            final(self)@ == old(self)@,
            r == (if n < N && n < old(self)@.len() {
                Some(old(self)@[n as int])
            } else {
                None
            }),
    {
        if n >= self.buffer.capacity() {
            return None;
        }
        if n < self.buffer.len() {
            self.buffer.get(n)
        } else {
            while self.next < self.iter.len()
                invariant
                    self.wf(),
                    self@ == old(self)@,
                    n < N,
                    self.buffer@.len() <= n,
                decreases self.iter@.len() - self.next,
            {
                let item = self.iter[self.next];
                self.next += 1;
                let _ = self.buffer.enqueue(item);
                assert(self@ =~= old(self)@);
                if n < self.buffer.len() {
                    return self.buffer.get(n);
                }
            }
            None
        }
    }

    /// Consumes the next item and hands it out.
    pub fn next(&mut self) -> (r: Option<T>)
        requires
            old(self).wf(),
        ensures
            final(self).wf(),
            old(self)@.len() == 0 ==> r is None && final(self)@ == old(self)@,
            old(self)@.len() > 0 ==> r == Some(old(self)@[0]) && final(self)@
                == old(self)@.drop_first(),
    {
        if let Some(item) = self.buffer.dequeue() {
            assert(self@ =~= old(self)@.drop_first());
            return Some(item);
        }
        if self.next < self.iter.len() {
            let item = self.iter[self.next];
            self.next += 1;
            assert(self@ =~= old(self)@.drop_first());
            Some(item)
        } else {
            None
        }
    }
}

/// Sequences that can be walked through a ring buffer.
pub trait ToRingBufferedIterator<T: Copy>: Sized {
    spec fn items(&self) -> Seq<T>;

    fn buffered<const N: usize>(self) -> (r: RingBufferedIterator<T, N>)
        requires
            N > 0,
        ensures
            r.wf(),
            r@ == self.items(),
    ;
}

impl<T: Copy> ToRingBufferedIterator<T> for Vec<T> {
    open spec fn items(&self) -> Seq<T> {
        self@
    }

    fn buffered<const N: usize>(self) -> (r: RingBufferedIterator<T, N>) {
        RingBufferedIterator::new(self)
    }
}

} // verus!
