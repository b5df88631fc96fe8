//! The result of the classifier: syntax tokens, their byte offsets, the errors and the
//! definitions of a text.

use super::conversion::classify;
use super::converter::Converter;
use super::errors::{PreparseError, PreparseErrorKind};
use crate::lexer::cursor::graphemes;
use crate::lexer::token::{tokenize, tokens_of};
use crate::parser::expansion::expanded::{Expanded, ExpandedIter};
use crate::parser::syntax::Trivia;
use crate::parser::SyntaxKind;
use crate::text::{slice, text_between};
use std::ops::Range;
use vstd::prelude::*;
use vstd::string::*;

verus! {

/// A syntax token, or the expansion that stands in the place of one.
pub enum SyntaxToken<'source> {
    Token(SyntaxKind),
    Expansion(Box<Expanded<'source>>),
}

impl<'source> SyntaxToken<'source> {
    /// The kind of the token; for an expansion, the kind of the token that was expanded.
    pub open spec fn kind(&self) -> SyntaxKind {
        match self {
            SyntaxToken::Token(kind) => *kind,
            SyntaxToken::Expansion(e) => *e.original,
        }
    }
}

/// The kinds of definitions.
#[derive(Debug, Copy, Clone, Eq, PartialEq, Structural)]
pub enum DefinitionKind {
    /// `\newcommand`.
    Macro,
    /// `\def`.
    Def,
    /// `\newenvironment`.
    Environment,
}

impl DefinitionKind {
    /// The name of the kind.
    pub fn name(&self) -> (s: &'static str)
        ensures
            s@ == (match self {
                DefinitionKind::Macro => "Macro"@,
                DefinitionKind::Def => "Def"@,
                DefinitionKind::Environment => "Environment"@,
            }),
    {
        match self {
            DefinitionKind::Macro => "Macro",
            DefinitionKind::Def => "Def",
            DefinitionKind::Environment => "Environment",
        }
    }
}

/// A definition found in a text: its kind and the index of the syntax token that heads it.
#[derive(Debug, Copy, Clone, Eq, PartialEq, Structural)]
pub struct Definition {
    pub kind: DefinitionKind,
    /// Index of the head token of the definition among the syntax tokens.
    pub idx: usize,
}

impl Definition {
    pub fn new(kind: DefinitionKind, idx: usize) -> (d: Definition)
        ensures
            d == (Definition { kind, idx }),
    {
        Definition { kind, idx }
    }
}

/// What a classified text holds: the bytes of the text, the kinds of its syntax tokens,
/// the byte at which each of them starts, the errors and the definitions.
pub struct Lexed {
    pub src: Seq<u8>,
    pub tokens: Seq<SyntaxKind>,
    pub start: Seq<usize>,
    pub errors: Seq<PreparseError>,
    pub definitions: Seq<Definition>,
}

impl Lexed {
    /// The classified text of `src` with no token yet.
    pub open spec fn empty(src: Seq<u8>) -> Lexed {
        Lexed {
            src,
            tokens: Seq::empty(),
            start: Seq::empty(),
            errors: Seq::empty(),
            definitions: Seq::empty(),
        }
    }

    /// With the token `token` added, which starts at the byte `start`.
    pub open spec fn add_token(self, token: SyntaxKind, start: usize) -> Lexed {
        Lexed { tokens: self.tokens.push(token), start: self.start.push(start), ..self }
    }

    /// With an `Error` token added at the byte `start` and the error recorded at its index.
    pub open spec fn add_error(self, kind: PreparseErrorKind, start: usize) -> Lexed {
        let added = self.add_token(SyntaxKind::Error, start);
        Lexed {
            errors: added.errors.push(
                PreparseError { kind, idx: (added.tokens.len() - 1) as usize },
            ),
            ..added
        }
    }

    /// With the head token of a definition added at the byte `start` and the definition
    /// recorded at its index.
    pub open spec fn add_definition(
        self,
        token: SyntaxKind,
        kind: DefinitionKind,
        start: usize,
    ) -> Lexed {
        let added = self.add_token(token, start);
        Lexed {
            definitions: added.definitions.push(
                Definition { kind, idx: (added.tokens.len() - 1) as usize },
            ),
            ..added
        }
    }

    /// The offsets are as many as the tokens, begin at the first byte and do not decrease.
    pub open spec fn aligned(self) -> bool {
        &&& self.tokens.len() == self.start.len()
        &&& (self.start.len() > 0 ==> self.start[0] == 0)
        &&& forall|i: int, j: int| 0 <= i <= j < self.start.len() ==> self.start[i] <= self.start[j]
    }

    /// The errors point at `Error` tokens and the definitions at tokens.
    pub open spec fn indexed(self) -> bool {
        &&& forall|i: int|
            0 <= i < self.errors.len() ==> (#[trigger] self.errors[i]).idx < self.tokens.len()
                && self.tokens[self.errors[i].idx as int] == SyntaxKind::Error
        &&& forall|i: int|
            0 <= i < self.definitions.len() ==> (#[trigger] self.definitions[i]).idx
                < self.tokens.len()
    }

    /// Every offset is a character boundary of the text.
    pub open spec fn on_boundaries(self) -> bool {
        forall|i: int|
            0 <= i < self.start.len() ==> vstd::utf8::is_char_boundary(
                self.src,
                #[trigger] self.start[i] as int,
            )
    }

    /// The classification is complete: the tokens are closed by the `Eof` token, which
    /// starts at the end of the text, every token starts on a character boundary, the
    /// errors point at `Error` tokens and the definitions at tokens.
    pub open spec fn complete(self) -> bool {
        &&& self.aligned()
        &&& self.tokens.len() > 0
        &&& self.tokens.last() == SyntaxKind::Eof
        &&& self.start.last() == self.src.len()
        &&& self.on_boundaries()
        &&& self.indexed()
    }

    /// The bytes of the token `i`.
    pub open spec fn token_bytes(self, i: int) -> Seq<u8> {
        self.src.subrange(self.start[i] as int, self.start[i + 1] as int)
    }

    /// The bytes of the first `n` tokens, one after the other.
    pub open spec fn joined(self, n: int) -> Seq<u8>
        decreases n,
    {
        if n <= 0 {
            Seq::empty()
        } else {
            self.joined(n - 1) + self.token_bytes(n - 1)
        }
    }

    /// The text of the tokens `start..end`, where the range lies before the closing token.
    pub open spec fn text(self, start: int, end: int) -> Option<Seq<char>> {
        let len = self.tokens.len() - 1;
        if 0 <= start <= len && 0 <= end <= len && len < self.start.len() {
            text_between(self.src, self.start[start] as int, self.start[end] as int)
        } else {
            None
        }
    }
}

/// The tokens of a complete classification, put one after the other, are the text from
/// its first byte to the offset of the token behind them: no byte is left out and none
/// stands twice.
pub proof fn lemma_joined(lexed: Lexed, n: int)
    requires
        lexed.complete(),
        0 <= n < lexed.tokens.len(),
    ensures
        lexed.joined(n) == lexed.src.subrange(0, lexed.start[n] as int),
    decreases n,
{
    if n == 0 {
        assert(lexed.src.subrange(0, 0) =~= Seq::<u8>::empty());
    } else {
        lemma_joined(lexed, n - 1);
        assert(lexed.start[n - 1] <= lexed.start[n]);
        assert(lexed.start[n] <= lexed.start[lexed.start.len() - 1]);
        assert(lexed.joined(n) =~= lexed.src.subrange(0, lexed.start[n] as int));
    }
}

/// In a complete classification every range of tokens before the closing token has its
/// text.
pub proof fn lemma_text_available(lexed: Lexed, start: int, end: int)
    requires
        lexed.complete(),
        0 <= start <= end < lexed.tokens.len(),
    ensures
        lexed.text(start, end) is Some,
{
    assert(lexed.start[start] <= lexed.start[end]);
    assert(lexed.start[end] <= lexed.start[lexed.start.len() - 1]);
}

/// The tokens of a complete classification before the closing `Eof`, put one after the
/// other, are the whole text.
pub proof fn lemma_total_coverage(lexed: Lexed)
    requires
        lexed.complete(),
    ensures
        lexed.joined(lexed.tokens.len() - 1) == lexed.src,
{
    lemma_joined(lexed, lexed.tokens.len() - 1);
    assert(lexed.src.subrange(0, lexed.src.len() as int) =~= lexed.src);
}

/// A range of token indices, given by one index or by a range of them.
pub trait IndexRange: Clone {
    /// The first index of the range.
    spec fn first(&self) -> int;

    /// The index behind the last one of the range.
    spec fn behind(&self) -> int;

    /// The range as a `Range`. A single index has to be below the greatest machine word.
    fn as_range(&self) -> (r: Range<usize>)
        requires
            self.behind() <= usize::MAX,
        ensures
            r.start == self.first(),
            r.end == self.behind(),
    ;
}

impl IndexRange for usize {
    open spec fn first(&self) -> int {
        *self as int
    }

    open spec fn behind(&self) -> int {
        *self + 1
    }

    fn as_range(&self) -> (r: Range<usize>) {
        *self..(*self + 1)
    }
}

impl IndexRange for Range<usize> {
    open spec fn first(&self) -> int {
        self.start as int
    }

    open spec fn behind(&self) -> int {
        self.end as int
    }

    fn as_range(&self) -> (r: Range<usize>) {
        self.start..self.end
    }
}

/// The result of classifying a text. It holds a reference to the text, the syntax tokens
/// and the byte at which each of them starts, the errors, and the definitions.
pub struct LexedStr<'source> {
    src: &'source str,
    tokens: Vec<SyntaxToken<'source>>,
    start: Vec<usize>,
    errors: Vec<PreparseError>,
    definitions: Vec<Definition>,
}

impl<'source> View for LexedStr<'source> {
    type V = Lexed;

    closed spec fn view(&self) -> Lexed {
        Lexed {
            src: self.src.spec_bytes(),
            tokens: Seq::new(self.tokens@.len(), |i: int| self.tokens@[i].kind()),
            start: self.start@,
            errors: self.errors@,
            definitions: self.definitions@,
        }
    }
}

impl<'source> LexedStr<'source> {
    /// The text that was classified.
    pub closed spec fn source(&self) -> &'source str {
        self.src
    }

    /// The tokens as they stand, expansions among them.
    pub closed spec fn raw(&self) -> Seq<SyntaxToken<'source>> {
        self.tokens@
    }

    /// The kinds of the tokens are those of the tokens as they stand.
    pub proof fn lemma_raw(&self)
        ensures
            self@.tokens.len() == self.raw().len(),
            forall|i: int| 0 <= i < self.raw().len() ==> self@.tokens[i] == self.raw()[i].kind(),
    {
    }

    /// Classifies a text: cuts it into tokens and turns them into syntax tokens. The
    /// result is complete: it ends with the `Eof` token, which starts at the end of the
    /// text, and its offsets are as many as its tokens.
    pub fn new(input: &'source str) -> (l: LexedStr<'source>)
        ensures
            l.source() == input,
            l@ == classify(tokens_of(graphemes(input@)), input.spec_bytes()),
            l@.complete(),
    {
        let buf = LexedStr::empty(input);
        let tokens = tokenize(input);
        // the length of the text is a machine word
        let _ = input.as_bytes().len();
        let conv = Converter::new(buf, tokens);
        conv.transform()
    }

    /// A classification of `input` that holds no token yet.
    pub(crate) fn empty(input: &'source str) -> (l: LexedStr<'source>)
        ensures
            l@ == Lexed::empty(input.spec_bytes()),
            l.source() == input,
    {
        let l = LexedStr {
            src: input,
            tokens: Vec::new(),
            start: Vec::new(),
            errors: Vec::new(),
            definitions: Vec::new(),
        };
        assert(l@.tokens =~= Seq::<SyntaxKind>::empty());
        l
    }

    /// The text that was classified.
    pub fn src(&self) -> (s: &'source str)
        ensures
            s == self.source(),
            s.spec_bytes() == self@.src,
    {
        self.src
    }

    pub(crate) fn add_token(&mut self, token: SyntaxKind, start: usize)
        ensures
            final(self)@ == old(self)@.add_token(token, start),
            final(self).source() == old(self).source(),
            final(self)@.tokens.len() <= usize::MAX,
    {
        self.tokens.push(SyntaxToken::Token(token));
        self.start.push(start);
        // the number of tokens is a machine word
        let _ = self.tokens.len();
        assert(self@.tokens =~= old(self)@.tokens.push(token));
    }

    pub(crate) fn add_error(&mut self, err_kind: PreparseErrorKind, start: usize)
        ensures
            final(self)@ == old(self)@.add_error(err_kind, start),
            final(self).source() == old(self).source(),
            final(self)@.tokens.len() <= usize::MAX,
    {
        self.add_token(SyntaxKind::Error, start);
        let err = PreparseError::new(err_kind, self.last_idx());
        self.errors.push(err)
    }

    pub(crate) fn add_definition(
        &mut self,
        token: SyntaxKind,
        def_kind: DefinitionKind,
        start: usize,
    )
        ensures
            final(self)@ == old(self)@.add_definition(token, def_kind, start),
            final(self).source() == old(self).source(),
            final(self)@.tokens.len() <= usize::MAX,
    {
        self.add_token(token, start);
        let def = Definition::new(def_kind, self.last_idx());
        self.definitions.push(def);
    }

    fn last_idx(&self) -> (idx: usize)
        requires
            self@.tokens.len() > 0,
        ensures
            idx == self@.tokens.len() - 1,
    {
        self.tokens.len() - 1
    }

    /// The definitions found in the text, in the order of their head tokens.
    pub fn definitions(&self) -> (d: &Vec<Definition>)
        ensures
            d@ == self@.definitions,
    {
        &self.definitions
    }

    /// The errors found in the text, in the order of their tokens.
    pub fn errors(&self) -> (e: &Vec<PreparseError>)
        ensures
            e@ == self@.errors,
    {
        &self.errors
    }

    /// The number of syntax tokens, the closing `Eof` token not counted.
    pub fn len(&self) -> (n: usize)
        requires
            self@.tokens.len() > 0,
        ensures
            n == self@.tokens.len() - 1,
    {
        self.tokens.len() - 1
    }

    /// The kinds of the syntax tokens, the closing `Eof` token left out.
    pub fn syntax_tokens(&self) -> (kinds: Vec<SyntaxKind>)
        requires
            self@.tokens.len() > 0,
        ensures
            kinds@ == self@.tokens.drop_last(),
    {
        let mut kinds: Vec<SyntaxKind> = Vec::new();
        let n = self.tokens.len() - 1;
        let mut i: usize = 0;
        while i < n
            invariant
                n == self@.tokens.len() - 1,
                n < self.tokens@.len(),
                i <= n,
                kinds@ == self@.tokens.take(i as int),
            decreases n - i,
        {
            kinds.push(self.kind_at(i));
            assert(self@.tokens.take(i + 1) =~= self@.tokens.take(i as int).push(
                self@.tokens[i as int],
            ));
            i += 1;
        }
        assert(self@.tokens.take(n as int) =~= self@.tokens.drop_last());
        kinds
    }

    /// The kind of the token `index`.
    pub(crate) fn kind_at(&self, index: usize) -> (kind: SyntaxKind)
        requires
            index < self@.tokens.len(),
        ensures
            kind == self@.tokens[index as int],
    {
        match &self.tokens[index] {
            SyntaxToken::Token(t) => *t,
            SyntaxToken::Expansion(e) => *e.original(),
        }
    }

    /// The token `index`, if there is one.
    pub(crate) fn get(&self, index: usize) -> (t: Option<&SyntaxToken<'source>>)
        ensures
            match t {
                Some(token) => index < self.raw().len() && *token == self.raw()[index as int],
                None => index >= self.raw().len(),
            },
            self.raw().len() <= usize::MAX,
    {
        if index < self.tokens.len() {
            Some(&self.tokens[index])
        } else {
            None
        }
    }

    /// The source text of a range of tokens. Expansions are not looked into. The result is
    /// `None` where the range does not lie before the closing token.
    pub fn text<R: IndexRange>(&self, r: R) -> (t: Option<&'source str>)
        requires
            self@.tokens.len() > 0,
            r.behind() <= usize::MAX,
        ensures
            match t {
                Some(s) => self@.text(r.first(), r.behind()) == Some(s@),
                None => self@.text(r.first(), r.behind()) is None,
            },
            self@.complete() && 0 <= r.first() <= r.behind() < self@.tokens.len() ==> t is Some,
    {
        proof {
            if self@.complete() && 0 <= r.first() <= r.behind() < self@.tokens.len() {
                lemma_text_available(self@, r.first(), r.behind());
            }
        }
        let range = r.as_range();
        let len = self.tokens.len() - 1;
        if !(range.end <= len && range.start <= len) {
            return None;
        }
        if len >= self.start.len() {
            return None;
        }
        let start = self.start[range.start];
        let end = self.start[range.end];
        slice(self.src, start, end)
    }
}

impl<'source> LexedStr<'source> {
    /// A walk over the tokens from the first one on.
    pub fn iter(&'source self) -> (it: LexerIter<'source>)
        ensures
            it == (LexerIter { index: Some(0usize), base: self, inner: None, include_expansion: false }),
    {
        self.iter_from(0)
    }

    /// A walk over the tokens from the token `idx` on.
    pub fn iter_from(&'source self, idx: usize) -> (it: LexerIter<'source>)
        ensures
            it == (LexerIter { index: Some(idx), base: self, inner: None, include_expansion: false }),
    {
        LexerIter::from_base(self, idx, false)
    }
}

/// A walk over the syntax tokens of a classified text. `index` is the index of the token
/// that [`LexerIter::next`] hands out; it is `None` once the walk has reached the closing
/// token. With `include_expansion` the walk descends into the expansions that stand among
/// the tokens, `inner` being the one that it is in.
#[derive(Clone, Copy)]
pub struct LexerIter<'source> {
    pub index: Option<usize>,
    pub base: &'source LexedStr<'source>,
    pub inner: Option<ExpandedIter<'source>>,
    pub include_expansion: bool,
}

/// The token that a walk over `tokens` sees at the place `end`, counted from `index` on
/// with the expansions among the tokens opened.
pub open spec fn expanded_nth(
    tokens: Seq<SyntaxToken>,
    inner: Option<ExpandedIter>,
    index: int,
    end: int,
    n: int,
) -> Option<SyntaxKind>
    decreases end - index + 1,
{
    if index > end {
        None
    } else if inner is Some && inner->0.base.tokens@.len() + index <= end {
        inner->0.nth(n)
    } else if !(0 <= index < tokens.len()) {
        None
    } else {
        match tokens[index] {
            SyntaxToken::Token(t) => if index == end {
                Some(t)
            } else {
                expanded_nth(tokens, inner, index + 1, end, n)
            },
            SyntaxToken::Expansion(e) => if e.tokens@.len() + index <= end {
                if end - index < e.tokens@.len() {
                    Some(e.tokens@[end - index])
                } else {
                    None
                }
            } else {
                None
            },
        }
    }
}

/// What a walk with the expansions opened hands out next, with the index and the inner
/// walk that it has afterwards.
pub open spec fn expanded_next<'a>(
    tokens: Seq<SyntaxToken<'a>>,
    index: Option<usize>,
    inner: Option<ExpandedIter<'a>>,
) -> (Option<SyntaxKind>, Option<usize>, Option<ExpandedIter<'a>>)
    decreases
            (match index {
                Some(i) => tokens.len() - i,
                None => 0,
            }),
            (if inner is Some {
                1nat
            } else {
                0nat
            }),
{
    match index {
        None => (None, None, inner),
        Some(i) => if inner is Some && inner->0.nth(0) is Some {
            (
                inner->0.nth(0),
                index,
                Some(ExpandedIter { index: Some((inner->0.index->0 + 1) as usize), ..inner->0 }),
            )
        } else if i >= tokens.len() {
            (None, index, None)
        } else {
            match tokens[i as int] {
                SyntaxToken::Token(t) => if t == SyntaxKind::Eof {
                    (None, None, None)
                } else {
                    (Some(t), Some((i + 1) as usize), None)
                },
                SyntaxToken::Expansion(e) => if i + 1 <= usize::MAX {
                    expanded_next(
                        tokens,
                        Some((i + 1) as usize),
                        Some(ExpandedIter { index: Some(0usize), base: &*e }),
                    )
                } else {
                    (None, index, None)
                },
            }
        },
    }
}

/// The tokens that a walk passes over.
pub enum Skip {
    /// Whitespace, newlines and comments.
    Trivia,
    /// Every token that is not of the kind.
    Until(SyntaxKind),
}

/// Whether a walk that passes over `what` passes over a token of the kind `kind`.
pub open spec fn skips(what: Skip, kind: SyntaxKind) -> bool {
    match what {
        Skip::Trivia => kind.trivia(),
        Skip::Until(k) => kind != k,
    }
}

/// The kind of the token `n` places behind the index of the walk; `Eof` where there is no
/// such token.
pub open spec fn peek_at(tokens: Seq<SyntaxKind>, index: Option<usize>, n: int) -> SyntaxKind {
    match index {
        Some(i) => if i + n < tokens.len() {
            tokens[i + n]
        } else {
            SyntaxKind::Eof
        },
        None => SyntaxKind::Eof,
    }
}

/// The index of the token that the walk looks at: the one behind its index, and the
/// number of tokens once the walk has ended.
pub open spec fn position(tokens: Seq<SyntaxKind>, index: Option<usize>) -> int {
    match index {
        Some(i) => i + 1,
        None => tokens.len() as int,
    }
}

/// The token that one step of the walk hands out: the one at its index, unless that is
/// the closing token.
pub open spec fn handed(tokens: Seq<SyntaxKind>, index: Option<usize>) -> Option<SyntaxKind> {
    match index {
        Some(i) => if i < tokens.len() && tokens[i as int] != SyntaxKind::Eof {
            Some(tokens[i as int])
        } else {
            None
        },
        None => None,
    }
}

/// The index of the walk after one step.
pub open spec fn stepped(tokens: Seq<SyntaxKind>, index: Option<usize>) -> Option<usize> {
    match index {
        Some(i) => if i < tokens.len() {
            if tokens[i as int] != SyntaxKind::Eof {
                Some((i + 1) as usize)
            } else {
                None
            }
        } else {
            index
        },
        None => None,
    }
}

/// The number of tokens from the index of the walk on; nothing once the walk has ended.
pub open spec fn left(tokens: Seq<SyntaxKind>, index: Option<usize>) -> int {
    match index {
        Some(i) => tokens.len() - i,
        None => 0,
    }
}

/// The index of the walk after it has passed over the tokens `what`: it steps on as long
/// as the token that it looks at is one of them.
pub open spec fn skip(tokens: Seq<SyntaxKind>, index: Option<usize>, what: Skip) -> Option<usize>
    decreases left(tokens, index),
    when tokens.len() <= usize::MAX
{
    match index {
        Some(i) => if i + 1 < tokens.len() && skips(what, tokens[i + 1]) {
            skip(tokens, stepped(tokens, index), what)
        } else {
            index
        },
        None => None,
    }
}

impl<'source> LexerIter<'source> {
    pub(crate) fn from_base(
        base: &'source LexedStr<'source>,
        index: usize,
        include_expansion: bool,
    ) -> (it: LexerIter<'source>)
        ensures
            it == (LexerIter { index: Some(index), base, inner: None, include_expansion }),
    {
        LexerIter { base, index: Some(index), inner: None, include_expansion }
    }

    /// The kinds of the tokens that the walk goes over.
    pub open spec fn kinds(&self) -> Seq<SyntaxKind> {
        self.base@.tokens
    }

    /// The walk leaves expansions closed and goes over tokens that end with the closing
    /// token, before which it stands.
    pub open spec fn plain(&self) -> bool {
        &&& !self.include_expansion
        &&& self.inner is None
        &&& 0 < self.kinds().len() <= usize::MAX
        &&& self.kinds().last() == SyntaxKind::Eof
        &&& (self.index matches Some(i) ==> i < self.kinds().len())
    }

    /// Steps on as long as the token behind the one that [`LexerIter::next`] hands out is
    /// one of `what`, which is what `predicate` tells.
    pub(crate) fn advance_while<F: Fn(SyntaxKind) -> bool>(
        &mut self,
        predicate: F,
        Ghost(what): Ghost<Skip>,
    )
        requires
            old(self).plain(),
            forall|k: SyntaxKind| call_requires(predicate, (k,)),
            forall|k: SyntaxKind, b: bool|
                call_ensures(predicate, (k,), b) ==> b == skips(what, k),
        ensures
            final(self).plain(),
            final(self).base == old(self).base,
            final(self).index == skip(old(self).kinds(), old(self).index, what),
            left(final(self).kinds(), final(self).index) <= left(old(self).kinds(), old(self).index),
    {
        loop
            invariant
                self.plain(),
                self.base == old(self).base,
                skip(self.kinds(), self.index, what) == skip(old(self).kinds(), old(self).index, what),
                left(self.kinds(), self.index) <= left(old(self).kinds(), old(self).index),
                forall|k: SyntaxKind| call_requires(predicate, (k,)),
                forall|k: SyntaxKind, b: bool|
                    call_ensures(predicate, (k,), b) ==> b == skips(what, k),
            ensures
                self.index == skip(old(self).kinds(), old(self).index, what),
            decreases left(self.kinds(), self.index),
        {
            let token = match self.peek() {
                Some(token) => token,
                None => {
                    break ;
                },
            };
            if !predicate(token) {
                break ;
            }
            let _ = self.next();
        }
    }

    /// The index of the token that [`LexerIter::next`] hands out. The walk must not have
    /// reached the closing token.
    pub fn index(&self) -> (i: usize)
        requires
            self.index is Some,
        ensures
            Some(i) == self.index,
    {
        match self.index {
            Some(i) => i,
            None => 0,
        }
    }

    /// The source text of a range of tokens; `None` where the range does not lie before
    /// the closing token.
    pub fn text<R: IndexRange>(&self, index: R) -> (t: Option<&'source str>)
        requires
            self.kinds().len() > 0,
            index.behind() <= usize::MAX,
        ensures
            match t {
                Some(s) => self.base@.text(index.first(), index.behind()) == Some(s@),
                None => self.base@.text(index.first(), index.behind()) is None,
            },
            self.base@.complete() && 0 <= index.first() <= index.behind() < self.kinds().len()
                ==> t is Some,
    {
        self.base.text(index)
    }

    /// The source text of the token behind the one that [`LexerIter::next`] hands out.
    pub fn current_text(&self) -> (t: Option<&'source str>)
        requires
            self.kinds().len() > 0,
        ensures
            match t {
                Some(s) => self.index matches Some(i) && self.base@.text(i + 1, i + 2) == Some(s@),
                None => self.index matches Some(i) ==> i + 2 > usize::MAX || self.base@.text(
                    i + 1,
                    i + 2,
                ) is None,
            },
    {
        match self.index {
            Some(i) => {
                if i >= usize::MAX - 1 {
                    return None;
                }
                self.text(i + 1)
            },
            None => None,
        }
    }

    /// The kind of the token `n` places behind the one that [`LexerIter::next`] hands out,
    /// where the expansions stay closed.
    pub open spec fn nth(&self, n: int) -> Option<SyntaxKind> {
        match self.index {
            Some(i) => if i + n < self.kinds().len() {
                Some(self.kinds()[i + n])
            } else {
                None
            },
            None => None,
        }
    }

    /// The kind of the token `n` places behind the one that [`LexerIter::next`] hands out.
    pub open spec fn peeked(&self, n: int) -> Option<SyntaxKind> {
        if !self.include_expansion {
            self.nth(n)
        } else {
            match self.index {
                Some(i) => expanded_nth(self.base.raw(), self.inner, i as int, i + n, n),
                None => None,
            }
        }
    }

    /// The kind of the token behind the one that [`LexerIter::next`] hands out.
    pub fn peek(&self) -> (k: Option<SyntaxKind>)
        requires
            self.index matches Some(i) ==> i < usize::MAX,
            self.inner matches Some(it) ==> (it.index matches Some(i) ==> i < usize::MAX),
        ensures
            k == self.peeked(1),
    {
        self.peek_nth(1)
    }

    /// The kind of the token `n` places behind the one that [`LexerIter::next`] hands out.
    /// The place has to be countable in a machine word.
    pub fn peek_nth(&self, n: usize) -> (k: Option<SyntaxKind>)
        requires
            self.index matches Some(i) ==> i + n <= usize::MAX,
            self.inner matches Some(it) ==> (it.index matches Some(i) ==> i + n <= usize::MAX),
        ensures
            k == self.peeked(n as int),
    {
        proof {
            self.base.lemma_raw();
        }
        let start = match self.index {
            Some(i) => i,
            None => {
                return None;
            },
        };
        if !self.include_expansion {
            let index = start + n;
            let token = match self.base.get(index) {
                Some(SyntaxToken::Token(t)) => *t,
                Some(SyntaxToken::Expansion(e)) => *e.original(),
                None => {
                    return None;
                },
            };
            return Some(token);
        }
        let mut index = start;
        let end = start + n;
        while index <= end
            invariant
                start <= index,
                end == start + n,
                self.index == Some(start),
                self.include_expansion,
                self.inner matches Some(it) ==> (it.index matches Some(i) ==> i + n <= usize::MAX),
                expanded_nth(self.base.raw(), self.inner, index as int, end as int, n as int)
                    == expanded_nth(self.base.raw(), self.inner, start as int, end as int, n as int),
            decreases end - index + 1,
        {
            if let Some(e) = &self.inner {
                let l = e.len();
                if l <= end - index {
                    return match e.peek_nth(n) {
                        Some(k) => Some(*k),
                        None => None,
                    };
                }
            }
            match self.base.get(index) {
                None => {
                    return None;
                },
                Some(SyntaxToken::Token(t)) => {
                    if index == end {
                        return Some(*t);
                    } else {
                        index += 1;
                    }
                },
                Some(SyntaxToken::Expansion(e)) => {
                    let l = e.len();
                    if l <= end - index {
                        let idx = end - index;
                        return match e.iter().peek_nth(idx) {
                            Some(k) => Some(*k),
                            None => None,
                        };
                    }
                    // the expansion reaches behind the place that is looked for
                    return None;
                },
            }
        }
        None
    }

    /// What [`LexerIter::next`] hands out.
    pub open spec fn next_kind(&self) -> Option<SyntaxKind> {
        if !self.include_expansion {
            match self.nth(0) {
                Some(k) => if k == SyntaxKind::Eof {
                    None
                } else {
                    Some(k)
                },
                None => None,
            }
        } else {
            expanded_next(self.base.raw(), self.index, self.inner).0
        }
    }

    /// The walk after [`LexerIter::next`].
    pub open spec fn next_iter(&self) -> LexerIter<'source> {
        if !self.include_expansion {
            match self.nth(0) {
                Some(k) => if k == SyntaxKind::Eof {
                    LexerIter { index: None, ..*self }
                } else {
                    LexerIter { index: Some((self.index->0 + 1) as usize), ..*self }
                },
                None => *self,
            }
        } else {
            let (_, index, inner) = expanded_next(self.base.raw(), self.index, self.inner);
            LexerIter { index, inner, ..*self }
        }
    }

    /// Hands out the token at the index of the walk and moves behind it. At the closing
    /// token the walk ends: nothing is handed out, now or later.
    pub fn next(&mut self) -> (k: Option<SyntaxKind>)
        ensures
            k == old(self).next_kind(),
            *final(self) == old(self).next_iter(),
    {
        proof {
            self.base.lemma_raw();
        }
        let start = match self.index {
            Some(i) => i,
            None => {
                return None;
            },
        };
        if !self.include_expansion {
            let token = match self.base.get(start) {
                None => {
                    return None;
                },
                Some(SyntaxToken::Token(t)) => *t,
                Some(SyntaxToken::Expansion(exp)) => *exp.original(),
            };
            if token == SyntaxKind::Eof {
                self.index = None;
                return None;
            }
            self.index = Some(start + 1);
            return Some(token);
        }
        loop
            invariant
                self.base == old(self).base,
                self.include_expansion,
                old(self).include_expansion,
                self.index is Some,
                expanded_next(self.base.raw(), self.index, self.inner) == expanded_next(
                    old(self).base.raw(),
                    old(self).index,
                    old(self).inner,
                ),
            decreases
                    (match self.index {
                        Some(i) => self.base.raw().len() - i,
                        None => 0,
                    }),
                    (if self.inner is Some {
                        1nat
                    } else {
                        0nat
                    }),
        {
            let index = self.index();
            if let Some(t) = self.inner {
                let mut t = t;
                if let Some(k) = t.peek_nth(0) {
                    let k = *k;
                    // the number of tokens of the expansion is a machine word
                    let _ = t.len();
                    let _ = t.next();
                    self.inner = Some(t);
                    return Some(k);
                }
            }
            self.inner = None;
            match self.base.get(index) {
                None => {
                    return None;
                },
                Some(SyntaxToken::Token(t)) => {
                    if *t == SyntaxKind::Eof {
                        self.index = None;
                        return None;
                    }
                    self.index = Some(index + 1);
                    return Some(*t);
                },
                Some(SyntaxToken::Expansion(e)) => {
                    if index == usize::MAX {
                        return None;
                    }
                    self.inner = Some(e.iter());
                    self.index = Some(index + 1);
                },
            }
        }
    }
}

} // verus!
