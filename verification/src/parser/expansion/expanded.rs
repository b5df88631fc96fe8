//! Token streams that an expansion puts in the place of a token.

use crate::parser::SyntaxKind;
use std::ops::Range;
use vstd::prelude::*;

verus! {

/// Where a run of tokens comes from.
#[derive(Debug)]
pub struct TokenSource {
    pub file_id: usize,
    pub range: Range<usize>,
}

/// The arguments that an expansion was called with.
#[derive(Debug)]
pub struct ExpansionArgs {}

/// The tokens that stand in the place of the token `original`.
#[derive(Debug)]
pub struct Expanded<'source> {
    pub name: &'source str,
    pub original: &'source SyntaxKind,
    pub skip_n: usize,
    pub source: TokenSource,
    pub caller: TokenSource,
    pub args: ExpansionArgs,
    pub tokens: Vec<SyntaxKind>,
}

impl<'source> Expanded<'source> {
    /// A walk over the tokens of the expansion.
    pub fn iter(&'source self) -> (it: ExpandedIter<'source>)
        ensures
            it.index == Some(0usize),
            it.base == self,
    {
        ExpandedIter::from_base(self, 0)
    }

    /// The token that was expanded.
    pub fn original(&self) -> (k: &SyntaxKind)
        ensures
            k == self.original,
    {
        self.original
    }

    /// The number of tokens of the expansion.
    pub fn len(&self) -> (n: usize)
        ensures
            n == self.tokens@.len(),
    {
        self.tokens.len()
    }
}

/// A walk over the tokens of an expansion. `index` is the index of the next token.
#[derive(Debug, Clone, Copy)]
pub struct ExpandedIter<'source> {
    pub index: Option<usize>,
    pub base: &'source Expanded<'source>,
}

impl<'source> ExpandedIter<'source> {
    pub fn from_base(base: &'source Expanded<'source>, index: usize) -> (it: ExpandedIter<
        'source,
    >)
        ensures
            it.index == Some(index),
            it.base == base,
    {
        ExpandedIter { index: Some(index), base }
    }

    pub fn original(&self) -> (k: &SyntaxKind)
        ensures
            k == self.base.original,
    {
        self.base.original
    }

    pub fn skip_n(&self) -> (n: usize)
        ensures
            n == self.base.skip_n,
    {
        self.base.skip_n
    }

    pub fn len(&self) -> (n: usize)
        ensures
            n == self.base.tokens@.len(),
    {
        self.base.tokens.len()
    }

    /// The token `n` places behind the next one, where the walk has not ended and the
    /// expansion has such a token.
    pub open spec fn nth(&self, n: int) -> Option<SyntaxKind> {
        match self.index {
            Some(index) => if index + n < self.base.tokens@.len() {
                Some(self.base.tokens@[index + n])
            } else {
                None
            },
            None => None,
        }
    }

    /// The token `n` places behind the next one. The place has to be countable in a
    /// machine word.
    pub fn peek_nth(&self, n: usize) -> (r: Option<&'source SyntaxKind>)
        requires
            self.index matches Some(index) ==> index + n <= usize::MAX,
        ensures
            match r {
                Some(k) => self.nth(n as int) == Some(*k),
                None => self.nth(n as int) is None,
            },
    {
        match self.index {
            Some(i) => {
                let index = i + n;
                if index < self.base.tokens.len() {
                    Some(&self.base.tokens[index])
                } else {
                    None
                }
            },
            None => None,
        }
    }

    /// Hands out the next token and moves behind it; `None` behind the last token.
    pub fn next(&mut self) -> (r: Option<&'source SyntaxKind>)
        requires
            old(self).index matches Some(index) ==> index < usize::MAX,
        ensures
            final(self).base == old(self).base,
            match r {
                Some(k) => old(self).nth(0) == Some(*k),
                None => old(self).nth(0) is None,
            },
            final(self).index == (match old(self).index {
                Some(index) => Some((index + 1) as usize),
                None => None,
            }),
    {
        let index = match self.index {
            Some(index) => index,
            None => {
                return None;
            },
        };
        let item = if index < self.base.tokens.len() {
            Some(&self.base.tokens[index])
        } else {
            None
        };
        self.index = Some(index + 1);
        item
    }
}

} // verus!
