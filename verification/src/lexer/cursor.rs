//! A cursor over the grapheme clusters of a text.

use crate::text::{lemma_utf8_len_concat, utf8_len};
use finl_unicode::grapheme_clusters::Graphemes;
use vstd::prelude::*;
use vstd::string::*;

verus! {

/// The grapheme clusters of a text, in the order in which they stand in it.
pub uninterp spec fn graphemes(text: Seq<char>) -> Seq<Seq<char>>;

/// The characters of each of the string slices `clusters`.
pub open spec fn views(clusters: Seq<&str>) -> Seq<Seq<char>> {
    Seq::new(clusters.len(), |i: int| clusters[i]@)
}

/// Collects what `finl_unicode::grapheme_clusters::Graphemes::new(input)` yields. The
/// iterator cuts the text into its clusters, named [`graphemes`]: each item is the slice
/// from where the one before it ended to the next break, so the items are not empty and,
/// one after the other, they are the text.
#[verifier::external_body]
fn split_graphemes<'a>(input: &'a str) -> (clusters: Vec<&'a str>)
    ensures
        views(clusters@) == graphemes(input@),
        views(clusters@).flatten() == input@,
        forall|i: int| 0 <= i < clusters@.len() ==> (#[trigger] clusters@[i])@.len() > 0,
{
    Graphemes::new(input).collect()
}

/// The characters of `s`.
pub fn to_chars(s: &str) -> (v: Vec<char>)
    ensures
        v@ == s@,
{
    let n = s.unicode_len();
    let mut v: Vec<char> = Vec::new();
    let mut i: usize = 0;
    while i < n
        invariant
            n == s@.len(),
            i <= n,
            v@ == s@.take(i as int),
        decreases n - i,
    {
        v.push(s.get_char(i));
        i += 1;
    }
    assert(s@.take(n as int) =~= s@);
    v
}

/// The number of bytes of the clusters `from..to`.
pub open spec fn span_len(clusters: Seq<Seq<char>>, from: int, to: int) -> nat
    decreases to - from,
{
    if to <= from {
        0
    } else {
        span_len(clusters, from, to - 1) + utf8_len(clusters[to - 1])
    }
}

/// The bytes of two adjacent runs of clusters add up.
pub proof fn lemma_span_len_split(clusters: Seq<Seq<char>>, from: int, mid: int, to: int)
    requires
        from <= mid <= to,
    ensures
        span_len(clusters, from, to) == span_len(clusters, from, mid) + span_len(clusters, mid, to),
    decreases to - mid,
{
    if mid < to {
        lemma_span_len_split(clusters, from, mid, to - 1);
    }
}

/// The clusters of a text have as many bytes as the text.
pub proof fn lemma_span_len_total(clusters: Seq<Seq<char>>, n: int)
    requires
        0 <= n <= clusters.len(),
    ensures
        span_len(clusters, 0, n) == utf8_len(clusters.take(n).flatten()),
    decreases n,
{
    if n == 0 {
        assert(clusters.take(0).flatten() =~= Seq::<char>::empty());
    } else {
        lemma_span_len_total(clusters, n - 1);
        assert(clusters.take(n) =~= clusters.take(n - 1).push(clusters[n - 1]));
        clusters.take(n - 1).lemma_flatten_push(clusters[n - 1]);
        lemma_utf8_len_concat(clusters.take(n - 1).flatten(), clusters[n - 1]);
    }
}

/// The clusters before the cluster `n` end on a character boundary of the text.
pub proof fn lemma_cluster_boundary(clusters: Seq<Seq<char>>, n: int)
    requires
        0 <= n <= clusters.len(),
    ensures
        vstd::utf8::is_char_boundary(
            vstd::utf8::encode_utf8(clusters.flatten()),
            span_len(clusters, 0, n) as int,
        ),
        span_len(clusters, 0, n) <= utf8_len(clusters.flatten()),
{
    let head = clusters.take(n);
    let tail = clusters.skip(n);
    lemma_span_len_total(clusters, n);
    assert(head + tail =~= clusters);
    vstd::seq_lib::lemma_flatten_concat(head, tail);
    crate::text::lemma_prefix_boundary(head.flatten(), tail.flatten());
}

/// What a cursor holds: the clusters of its text, the index of the next one, the bytes
/// consumed since the last reset and the characters of the cluster consumed last.
pub struct CursorView {
    pub clusters: Seq<Seq<char>>,
    pub next: int,
    pub token_len: int,
    pub buf: Seq<char>,
}

/// Walks a text one grapheme cluster at a time, so that no token boundary splits what a
/// reader sees as one character.
pub struct Cursor<'source> {
    token_len: usize,
    clusters: Vec<&'source str>,
    next: usize,
    buf: Vec<char>,
}

impl<'source> View for Cursor<'source> {
    type V = CursorView;

    closed spec fn view(&self) -> CursorView {
        CursorView {
            clusters: views(self.clusters@),
            next: self.next as int,
            token_len: self.token_len as int,
            buf: self.buf@,
        }
    }
}

impl CursorView {
    /// The next cluster lies in the text, whose bytes can be counted in a machine word, and
    /// no more bytes are counted as consumed than the clusters before the next one have.
    pub open spec fn wf(self) -> bool {
        &&& 0 <= self.next <= self.clusters.len()
        &&& span_len(self.clusters, 0, self.clusters.len() as int) <= usize::MAX
        &&& 0 <= self.token_len <= span_len(self.clusters, 0, self.next)
    }

    /// The cluster that the cursor consumes next, if any.
    pub open spec fn first(self) -> Option<Seq<char>> {
        if self.next < self.clusters.len() {
            Some(self.clusters[self.next])
        } else {
            None
        }
    }

    /// The view after one cluster has been consumed.
    pub open spec fn bumped(self) -> CursorView {
        match self.first() {
            Some(c) => CursorView {
                clusters: self.clusters,
                next: self.next + 1,
                token_len: self.token_len + utf8_len(c),
                buf: c,
            },
            None => CursorView { buf: Seq::empty(), ..self },
        }
    }

    /// Whether the clusters `self.next..end` all let `goes_on` hold and the run ends at `end`.
    pub open spec fn run_to(self, end: int, goes_on: spec_fn(Seq<char>) -> bool) -> bool {
        &&& self.next <= end <= self.clusters.len()
        &&& forall|j: int| self.next <= j < end ==> goes_on(#[trigger] self.clusters[j])
        &&& (end < self.clusters.len() ==> !goes_on(self.clusters[end]))
    }
}

impl<'source> Cursor<'source> {
    /// A cursor at the beginning of `input`.
    pub fn new(input: &'source str) -> (c: Cursor<'source>)
        ensures
            c@.wf(),
            c@.clusters == graphemes(input@),
            c@.clusters.flatten() == input@,
            c@.next == 0,
            c@.token_len == 0,
            c@.buf.len() == 0,
            forall|i: int| 0 <= i < c@.clusters.len() ==> (#[trigger] c@.clusters[i]).len() > 0,
    {
        let clusters = split_graphemes(input);
        proof {
            let cl = views(clusters@);
            lemma_span_len_total(cl, cl.len() as int);
            assert(cl.take(cl.len() as int) =~= cl);
        }
        // the length of the text is a machine word
        let _ = input.as_bytes().len();
        Cursor { token_len: 0, clusters, next: 0, buf: Vec::new() }
    }

    /// Peeks the next cluster without consuming it.
    pub fn first(&self) -> (c: Option<&'source str>)
        requires
            self@.wf(),
        ensures
            match c {
                Some(s) => self@.first() == Some(s@),
                None => self@.first() is None,
            },
    {
        if self.next < self.clusters.len() {
            Some(self.clusters[self.next])
        } else {
            None
        }
    }

    /// The number of bytes consumed since the last reset.
    pub fn token_len(&self) -> (n: usize)
        ensures
            n == self@.token_len,
    {
        self.token_len
    }

    /// Resets the number of bytes consumed to 0.
    pub fn reset_token_len(&mut self)
        requires
            old(self)@.wf(),
        ensures
            final(self)@ == (CursorView { token_len: 0, ..old(self)@ }),
            final(self)@.wf(),
    {
        self.token_len = 0;
    }

    /// Moves to the next cluster, whose characters [`Cursor::buf`] then gives. At the end of
    /// the text nothing moves and the result is `None`.
    pub fn bump(&mut self) -> (r: Option<()>)
        requires
            old(self)@.wf(),
        ensures
            final(self)@ == old(self)@.bumped(),
            final(self)@.wf(),
            r is Some <==> old(self)@.first() is Some,
    {
        let current_cluster = self.first();
        match current_cluster {
            Some(c) => {
                proof {
                    let cl = self@.clusters;
                    lemma_span_len_split(cl, 0, self@.next + 1, cl.len() as int);
                }
                assert(self.next < self.clusters.len());
                self.token_len += c.len();
                self.next += 1;
                self.buf = to_chars(c);
                Some(())
            },
            None => {
                self.buf = Vec::new();
                None
            },
        }
    }

    /// Consumes clusters while `predicate` returns true or until the end of the text is
    /// reached. `goes_on` is what the predicate computes.
    pub(crate) fn eat_while<F: Fn(&Vec<char>) -> bool>(
        &mut self,
        predicate: F,
        Ghost(goes_on): Ghost<spec_fn(Seq<char>) -> bool>,
    )
        requires
            old(self)@.wf(),
            forall|v: &Vec<char>| call_requires(predicate, (v,)),
            forall|v: &Vec<char>, b: bool|
                call_ensures(predicate, (v,), b) ==> b == goes_on(v@),
        ensures
            final(self)@.wf(),
            final(self)@.clusters == old(self)@.clusters,
            old(self)@.run_to(final(self)@.next, goes_on),
            final(self)@.token_len == old(self)@.token_len + span_len(
                old(self)@.clusters,
                old(self)@.next,
                final(self)@.next,
            ),
    {
        loop
            invariant
                self@.wf(),
                self@.clusters == old(self)@.clusters,
                old(self)@.next <= self@.next,
                forall|j: int|
                    old(self)@.next <= j < self@.next ==> goes_on(#[trigger] self@.clusters[j]),
                self@.token_len == old(self)@.token_len + span_len(
                    self@.clusters,
                    old(self)@.next,
                    self@.next,
                ),
                forall|v: &Vec<char>| call_requires(predicate, (v,)),
                forall|v: &Vec<char>, b: bool|
                    call_ensures(predicate, (v,), b) ==> b == goes_on(v@),
            ensures
                old(self)@.run_to(self@.next, goes_on),
            decreases self@.clusters.len() - self@.next,
        {
            let buf = match self.first() {
                None => {
                    break ;
                },
                Some(c) => to_chars(c),
            };
            if !predicate(&buf) {
                break ;
            }
            self.bump();
        }
    }

    /// The characters of the cluster consumed last.
    pub fn buf(&self) -> (b: &Vec<char>)
        ensures
            b@ == self@.buf,
    {
        &self.buf
    }
}

} // verus!
