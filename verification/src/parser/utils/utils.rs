//! Markers of positions and a comparison of two sequences.

use vstd::prelude::*;

verus! {

/// The right to make a [`Marker`]. Only the stages of this crate hold it.
pub struct Lock();

impl Lock {
    pub(crate) fn new() -> Lock {
        Lock()
    }
}

/// The index of a token, taken at some moment of a walk over the tokens. It serves to
/// measure the range from there to where the walk stands later.
#[derive(Debug, Copy, Clone, PartialEq, Eq, Structural)]
pub struct Marker(usize);

impl Marker {
    pub fn new(idx: usize, _lock: Lock) -> (m: Marker)
        ensures
            m.index() == idx,
    {
        Marker(idx)
    }

    /// The index that the marker holds.
    pub closed spec fn index(&self) -> usize {
        self.0
    }

    /// The index that the marker holds.
    #[verifier::when_used_as_spec(index)]
    pub fn get(&self) -> (idx: usize)
        ensures
            idx == self.index(),
    {
        self.0
    }
}

/// Whether `comperator` finds the items `0..n` of `window` alike to the items of `base`
/// at the same places.
pub open spec fn alike_up_to<X, Y, P: Fn(&X, &Y) -> bool>(
    base: Seq<X>,
    window: Seq<Y>,
    comperator: P,
    n: int,
) -> bool {
    &&& n <= base.len()
    &&& n <= window.len()
    &&& forall|i: int| 0 <= i < n ==> call_ensures(comperator, (&base[i], &window[i]), true)
}

/// Walks `base` from the item `from` on along `compare_window` and says whether every item
/// of the window has its like in `base`, as `comperator` judges. An empty window matches
/// anything. Where the answer is no, the window is longer than what is left of `base`, or
/// `comperator` says no for the first time at some place of the window.
pub fn compare_advance<X, Y, P: Fn(&X, &Y) -> bool>(
    base: &Vec<X>,
    from: usize,
    compare_window: &Vec<Y>,
    comperator: P,
) -> (r: bool)
    requires
        from <= base.len(),
        forall|x: &X, y: &Y| call_requires(comperator, (x, y)),
    ensures
        r ==> alike_up_to(
            base@.skip(from as int),
            compare_window@,
            comperator,
            compare_window@.len() as int,
        ),
        !r ==> exists|n: int|
            {
                &&& #[trigger] alike_up_to(base@.skip(from as int), compare_window@, comperator, n)
                &&& n < compare_window@.len()
                &&& (n == base@.len() - from || call_ensures(
                    comperator,
                    (&base@.skip(from as int)[n], &compare_window@[n]),
                    false,
                ))
            },
{
    let ghost tail = base@.skip(from as int);
    let mut i: usize = 0;
    while i < compare_window.len()
        invariant
            from <= base.len(),
            tail == base@.skip(from as int),
            i <= compare_window.len(),
            alike_up_to(tail, compare_window@, comperator, i as int),
            forall|x: &X, y: &Y| call_requires(comperator, (x, y)),
        decreases compare_window.len() - i,
    {
        if i >= base.len() - from {
            return false;
        }
        if !comperator(&base[from + i], &compare_window[i]) {
            return false;
        }
        i += 1;
    }
    true
}

} // verus!
