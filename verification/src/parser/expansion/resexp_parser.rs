//! The walk of the resolver over the syntax tokens of a definition.

use super::errors::{ResolverErrorKind, ResolverResult};
use crate::parser::preparse::lexed_str::{
    handed, left, peek_at, position, skip, skips, stepped, Lexed, Skip,
};
use crate::parser::preparse::{IndexRange, LexedStr, LexerIter};
use crate::parser::syntax::Trivia;
use crate::parser::utils::utils::{Lock, Marker};
use crate::parser::SyntaxKind;
use crate::text::{decimal_u16, first_char, lemma_str_head, lemma_tail_view, parse_u16, tail_from};
use crate::unicode::is_ascii;
use std::ops::Range;
use vstd::prelude::*;
use vstd::string::*;

verus! {

/// How the opening token of a block is looked for.
#[derive(Debug, Clone, Copy, PartialEq, Eq, Structural)]
pub enum OptionalKind {
    /// The block has to be there.
    Required,
    /// The next token is taken for the opening token whatever it is.
    OptionalBlockIdent,
    /// The block may be missing.
    OptionalBlock,
}

/// The kind of the first token from `n` places behind the index on that is no trivia.
pub open spec fn first_solid(tokens: Seq<SyntaxKind>, index: Option<usize>, n: int) -> SyntaxKind
    decreases tokens.len() - n,
{
    if peek_at(tokens, index, n).trivia() && n < tokens.len() {
        first_solid(tokens, index, n + 1)
    } else {
        peek_at(tokens, index, n)
    }
}

/// The index of the walk after it was to step over a token of the kind `kind`, and whether
/// it did: it steps over the token that it looks at where it is of the kind, and over
/// whatever token it is where `optional` is set.
pub open spec fn expected(
    tokens: Seq<SyntaxKind>,
    index: Option<usize>,
    kind: SyntaxKind,
    optional: bool,
) -> (Option<usize>, ResolverResult) {
    let peek = peek_at(tokens, index, 1);
    if peek == kind || optional {
        (
            stepped(tokens, index),
            if handed(tokens, index) is Some {
                Ok(())
            } else {
                Err(ResolverErrorKind::EofReached)
            },
        )
    } else {
        (index, Err(ResolverErrorKind::UnexpectedToken { expected: kind, found: peek }))
    }
}

/// The text behind the first character of `text`, where that character is one byte.
pub open spec fn behind_marker(text: Seq<char>) -> Option<Seq<char>> {
    if text.len() > 0 && is_ascii(text[0]) {
        Some(text.drop_first())
    } else {
        None
    }
}

/// The text behind the first character of `text`, where that character is one byte.
pub fn skip_marker<'a>(text: &'a str) -> (r: Option<&'a str>)
    ensures
        match r {
            Some(s) => behind_marker(text@) == Some(s@),
            None => behind_marker(text@) is None,
        },
{
    match first_char(text) {
        Some(c) => {
            if is_ascii(c) {
                proof {
                    lemma_str_head(text);
                }
                let rest = tail_from(text, 1);
                proof {
                    lemma_tail_view(text, rest, 1);
                }
                Some(rest)
            } else {
                None
            }
        },
        None => None,
    }
}

/// The walk of the resolver. It looks at the token behind the index of its iterator, so
/// that a range of tokens reaches from the place where a mark was taken to the place that
/// the walk looks at.
pub struct ResExpParser<'source> {
    pub iter: LexerIter<'source>,
}

impl<'source> ResExpParser<'source> {
    /// The kinds of the tokens that the walk goes over.
    pub open spec fn tokens(&self) -> Seq<SyntaxKind> {
        self.iter.base@.tokens
    }

    /// The classified text that the walk goes over.
    pub open spec fn lexed(&self) -> Lexed {
        self.iter.base@
    }

    /// The walk goes over tokens that end with the closing token, stands before their end
    /// and leaves expansions closed.
    pub open spec fn wf(&self) -> bool {
        self.iter.plain()
    }

    pub fn new(iter: LexerIter<'source>) -> (p: ResExpParser<'source>)
        ensures
            p.iter == iter,
    {
        ResExpParser { iter }
    }

    /// Steps over the token at the index of the walk and hands it out. At the closing
    /// token the walk ends with a failure.
    pub fn advance(&mut self) -> (r: Result<SyntaxKind, ResolverErrorKind>)
        requires
            old(self).wf(),
        ensures
            final(self).wf(),
            final(self).iter.base == old(self).iter.base,
            final(self).iter.index == stepped(old(self).tokens(), old(self).iter.index),
            match r {
                Ok(k) => handed(old(self).tokens(), old(self).iter.index) == Some(k),
                Err(e) => handed(old(self).tokens(), old(self).iter.index) is None && e
                    == ResolverErrorKind::EofReached,
            },
            r is Ok ==> left(final(self).tokens(), final(self).iter.index) < left(
                old(self).tokens(),
                old(self).iter.index,
            ),
            left(final(self).tokens(), final(self).iter.index) <= left(
                old(self).tokens(),
                old(self).iter.index,
            ),
    {
        match self.iter.next() {
            Some(k) => Ok(k),
            None => Err(ResolverErrorKind::EofReached),
        }
    }

    /// Steps on until the walk looks at a token of the kind `kind`; fails where there is
    /// none before the end.
    pub fn advance_to(&mut self, kind: SyntaxKind) -> (r: ResolverResult)
        requires
            old(self).wf(),
        ensures
            final(self).wf(),
            final(self).iter.base == old(self).iter.base,
            final(self).iter.index == skip(
                old(self).tokens(),
                old(self).iter.index,
                Skip::Until(kind),
            ),
            r == (if peek_at(final(self).tokens(), final(self).iter.index, 1) != SyntaxKind::Eof {
                Ok::<(), ResolverErrorKind>(())
            } else {
                Err(ResolverErrorKind::EofReached)
            }),
            left(final(self).tokens(), final(self).iter.index) <= left(
                old(self).tokens(),
                old(self).iter.index,
            ),
    {
        let differs = |token: SyntaxKind| -> (b: bool)
            ensures
                b == (token != kind),
            { token != kind };
        self.iter.advance_while(differs, Ghost(Skip::Until(kind)));
        if self.peek() != SyntaxKind::Eof {
            Ok(())
        } else {
            Err(ResolverErrorKind::EofReached)
        }
    }

    /// The kind of the token that the walk looks at.
    pub fn peek(&self) -> (k: SyntaxKind)
        requires
            self.wf(),
        ensures
            k == peek_at(self.tokens(), self.iter.index, 1),
    {
        match self.iter.peek() {
            Some(k) => k,
            None => SyntaxKind::Eof,
        }
    }

    /// The kind of the token behind the one that the walk looks at.
    pub fn peek_second(&self) -> (k: SyntaxKind)
        requires
            self.wf(),
        ensures
            k == peek_at(self.tokens(), self.iter.index, 2),
    {
        self.peek_from(2)
    }

    /// The kind of the token `n` places behind the index of the walk.
    fn peek_from(&self, n: usize) -> (k: SyntaxKind)
        requires
            self.wf(),
        ensures
            k == peek_at(self.tokens(), self.iter.index, n as int),
    {
        match self.iter.index {
            Some(i) => {
                if n > usize::MAX - i {
                    // the number of tokens is a machine word
                    let _ = self.iter.base.len();
                    return SyntaxKind::Eof;
                }
            },
            None => {},
        }
        match self.iter.peek_nth(n) {
            Some(k) => k,
            None => SyntaxKind::Eof,
        }
    }

    /// The kind of the first token from the one that the walk looks at on that is no
    /// trivia.
    pub fn peek_skip_trivia(&self) -> (k: SyntaxKind)
        requires
            self.wf(),
        ensures
            k == first_solid(self.tokens(), self.iter.index, 1),
    {
        let limit = self.iter.base.len();
        let mut n: usize = 1;
        while n <= limit && self.peek_from(n).is_trivia()
            invariant
                self.wf(),
                1 <= n,
                limit == self.tokens().len() - 1,
                first_solid(self.tokens(), self.iter.index, n as int) == first_solid(
                    self.tokens(),
                    self.iter.index,
                    1,
                ),
            decreases limit + 1 - n,
        {
            n += 1;
        }
        self.peek_from(n)
    }

    /// Whether the walk looks at a token of the kind `kind`.
    pub fn at(&self, kind: SyntaxKind) -> (b: bool)
        requires
            self.wf(),
        ensures
            b == (peek_at(self.tokens(), self.iter.index, 1) == kind),
    {
        self.peek() == kind
    }

    /// Whether the token behind the one that the walk looks at is of the kind `kind`.
    pub fn at_peek(&self, kind: SyntaxKind) -> (b: bool)
        requires
            self.wf(),
        ensures
            b == (peek_at(self.tokens(), self.iter.index, 2) == kind),
    {
        self.peek_second() == kind
    }

    /// Steps over the token that the walk looks at where it is of the kind `kind`, and
    /// over whatever token it is where `optional` is set. Otherwise it fails and stays.
    pub fn expect(&mut self, kind: SyntaxKind, optional: bool) -> (r: ResolverResult)
        requires
            old(self).wf(),
        ensures
            final(self).wf(),
            final(self).iter.base == old(self).iter.base,
            left(final(self).tokens(), final(self).iter.index) <= left(
                old(self).tokens(),
                old(self).iter.index,
            ),
            (final(self).iter.index, r) == expected(
                old(self).tokens(),
                old(self).iter.index,
                kind,
                optional,
            ),
    {
        let peek = self.peek();
        if peek == kind {
            match self.advance() {
                Ok(_) => Ok(()),
                Err(e) => Err(e),
            }
        } else if optional {
            match self.advance() {
                Ok(_) => Ok(()),
                Err(e) => Err(e),
            }
        } else {
            Err(ResolverErrorKind::UnexpectedToken { expected: kind, found: peek })
        }
    }

    /// Marks the token that the walk looks at.
    pub fn mark(&self) -> (m: Marker)
        requires
            self.wf(),
        ensures
            m.index() == position(self.tokens(), self.iter.index),
    {
        let idx = self.index();
        self.base_mark(idx)
    }

    fn base_mark(&self, idx: usize) -> (m: Marker)
        ensures
            m.index() == idx,
    {
        let lock = Lock::new();
        Marker::new(idx, lock)
    }

    /// The tokens from the mark to the one that the walk looks at.
    pub fn range_from_mark(&self, mark: Marker) -> (r: Range<usize>)
        requires
            self.wf(),
        ensures
            r.start == mark.index(),
            r.end == position(self.tokens(), self.iter.index),
            r.end <= self.tokens().len(),
    {
        mark.get()..self.index()
    }

    /// The index of the token that the walk looks at.
    pub fn index(&self) -> (i: usize)
        requires
            self.wf(),
        ensures
            i == position(self.tokens(), self.iter.index),
    {
        match self.iter.index {
            Some(i) => i + 1,
            None => self.iter.base.len() + 1,
        }
    }

    /// Steps over whitespace, newlines and comments.
    pub fn skip_trivia(&mut self)
        requires
            old(self).wf(),
        ensures
            final(self).wf(),
            final(self).iter.base == old(self).iter.base,
            final(self).iter.index == skip(old(self).tokens(), old(self).iter.index, Skip::Trivia),
            left(final(self).tokens(), final(self).iter.index) <= left(
                old(self).tokens(),
                old(self).iter.index,
            ),
    {
        self.iter.advance_while(is_trivia_kind, Ghost(Skip::Trivia));
    }

    /// The number that the text of the tokens `range` spells in decimal digits, read
    /// behind the first byte where `skip` is set.
    pub fn parse<R: IndexRange>(&self, range: R, skip: bool) -> (r: Result<u16, ResolverErrorKind>)
        requires
            self.wf(),
            range.behind() <= usize::MAX,
        ensures
            r == number_at(self.lexed(), range.first(), range.behind(), skip),
    {
        let bounds = range.as_range();
        let mut text = match self.text(range) {
            Ok(text) => text,
            Err(e) => {
                return Err(e);
            },
        };
        if skip {
            text = match skip_marker(text) {
                Some(rest) => rest,
                None => {
                    return Err(ResolverErrorKind::FailedToRetrieveTextRange(bounds));
                },
            };
        }
        match parse_u16(text) {
            Some(n) => Ok(n),
            None => Err(ResolverErrorKind::FailedToRetrieveTextRange(bounds)),
        }
    }

    /// The text of the tokens `range`.
    pub fn text<R: IndexRange>(&self, range: R) -> (r: Result<&'source str, ResolverErrorKind>)
        requires
            self.wf(),
            range.behind() <= usize::MAX,
        ensures
            match r {
                Ok(s) => self.lexed().text(range.first(), range.behind()) == Some(s@),
                Err(e) => self.lexed().text(range.first(), range.behind()) is None && e
                    == ResolverErrorKind::FailedToRetrieveText,
            },
    {
        match self.iter.text(range) {
            Some(s) => Ok(s),
            None => Err(ResolverErrorKind::FailedToRetrieveText),
        }
    }
}

/// Whether a token of the kind is whitespace, a newline or a comment.
fn is_trivia_kind(kind: SyntaxKind) -> (b: bool)
    ensures
        b == skips(Skip::Trivia, kind),
{
    kind.is_trivia()
}

/// The number that the text of the tokens `first..behind` spells in decimal digits, read
/// behind the first byte where `skip` is set.
pub open spec fn number_at(lexed: Lexed, first: int, behind: int, skip: bool) -> Result<
    u16,
    ResolverErrorKind,
> {
    let range = (first as usize)..(behind as usize);
    match lexed.text(first, behind) {
        None => Err(ResolverErrorKind::FailedToRetrieveText),
        Some(text) => {
            let digits = if skip {
                behind_marker(text)
            } else {
                Some(text)
            };
            match digits {
                None => Err(ResolverErrorKind::FailedToRetrieveTextRange(range)),
                Some(d) => match decimal_u16(d) {
                    Some(n) => Ok(n),
                    None => Err(ResolverErrorKind::FailedToRetrieveTextRange(range)),
                },
            }
        },
    }
}

} // verus!
