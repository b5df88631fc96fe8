//! The parser: a walk over lexical tokens that records events.

use super::infra::{CloseMark, OpenMark};
use super::token_set::TokenSet;
use crate::collections::RingBufferedIterator;
use crate::parser::lexer::token::LexToken;
use crate::parser::SyntaxKind;
use crate::span::{CurrentFile, Spanned};
use vstd::prelude::*;

verus! {

/// What the parser is reading.
#[derive(Debug, PartialEq, Eq, Clone, Copy)]
pub enum ParserState {
    Markdown,
    Math,
    Code,
    Command,
}

/// An event of the parser: a node opens, a node closes, or a token is taken.
#[derive(Debug, Clone, Copy, PartialEq, Eq)]
pub enum ParserEvent {
    /// A node of the kind `kind` opens. `open_before` is the index of the event that opens a
    /// node around this one, which was opened later.
    Open { kind: SyntaxKind, open_before: Option<usize> },
    /// A node closes, `len` bytes behind the last node that was closed.
    Close { len: u32 },
    /// A token is taken into the open node.
    Advance,
}

/// The number of tokens that the parser can look ahead.
pub const MAX_LOOKAHEAD: usize = 8;

/// The number of looks at the tokens that the parser may take between two tokens that it
/// consumes.
pub const MAX_FUEL: usize = 256;

/// A lexical token with its span.
pub type TokenizerItem = Spanned<LexToken, CurrentFile>;

/// What a parser holds: the events so far, the tokens that it has not consumed, the bytes
/// of the tokens consumed since the last node was closed, and the looks that it may still
/// take.
pub struct ParserView {
    pub events: Seq<ParserEvent>,
    pub tokens: Seq<TokenizerItem>,
    pub state: ParserState,
    pub token_len: u32,
    pub fuel: usize,
}

pub struct Parser {
    iter: RingBufferedIterator<TokenizerItem, 8>,
    events: Vec<ParserEvent>,
    state: ParserState,
    token_len: u32,
    fuel: usize,
}

impl View for Parser {
    type V = ParserView;

    closed spec fn view(&self) -> ParserView {
        ParserView {
            events: self.events@,
            tokens: self.iter@,
            state: self.state,
            token_len: self.token_len,
            fuel: self.fuel,
        }
    }
}

impl ParserView {
    /// The kind of the token `n` places behind the next one: `Eof` where there is none or
    /// the lookahead does not reach so far.
    pub open spec fn nth(self, n: int) -> LexToken {
        if 0 <= n < MAX_LOOKAHEAD && n < self.tokens.len() {
            self.tokens[n].value
        } else {
            LexToken::Eof
        }
    }
}

impl Parser {
    pub closed spec fn wf(&self) -> bool {
        self.iter.wf()
    }

    /// A parser at the first of `tokens`.
    pub fn new(tokens: Vec<TokenizerItem>, state: ParserState) -> (p: Parser)
        ensures
            p.wf(),
            p@ == (ParserView {
                events: Seq::empty(),
                tokens: tokens@,
                state,
                token_len: 0,
                fuel: MAX_FUEL,
            }),
    {
        Parser {
            state,
            iter: RingBufferedIterator::new(tokens),
            events: Vec::new(),
            fuel: MAX_FUEL,
            token_len: 0,
        }
    }

    /// The events that were recorded.
    pub fn finish(self) -> (events: Vec<ParserEvent>)
        ensures
            events@ == self@.events,
    {
        self.events
    }

    /// Opens a node, whose kind is set when it is closed.
    pub fn open(&mut self) -> (m: OpenMark)
        requires
            old(self).wf(),
        ensures
            final(self).wf(),
            m.index() == old(self)@.events.len(),
            final(self)@ == (ParserView {
                events: old(self)@.events.push(
                    ParserEvent::Open { kind: SyntaxKind::Error, open_before: None },
                ),
                ..old(self)@
            }),
    {
        let idx = self.events.len();
        self.events.push(ParserEvent::Open { kind: SyntaxKind::Error, open_before: None });
        OpenMark::new(idx)
    }

    /// Closes the node that was opened at `marker` as a node of the kind `kind`.
    pub fn close(&mut self, marker: OpenMark, kind: SyntaxKind) -> (m: CloseMark)
        requires
            old(self).wf(),
            marker.index() < old(self)@.events.len(),
        ensures
            final(self).wf(),
            m.index() == marker.index(),
            final(self)@ == (ParserView {
                events: old(self)@.events.update(
                    marker.index() as int,
                    ParserEvent::Open { kind, open_before: None },
                ).push(ParserEvent::Close { len: old(self)@.token_len }),
                token_len: 0,
                ..old(self)@
            }),
    {
        self.events.set(marker.get(), ParserEvent::Open { kind, open_before: None });
        self.events.push(ParserEvent::Close { len: self.token_len });
        self.token_len = 0;
        CloseMark::new(marker.get())
    }

    /// The events with the event at `mark`, if it opens a node, pointing at `len`.
    pub open spec fn linked(events: Seq<ParserEvent>, mark: int, len: usize) -> Seq<ParserEvent> {
        if 0 <= mark < events.len() {
            match events[mark] {
                ParserEvent::Open { kind, open_before } => events.update(
                    mark,
                    ParserEvent::Open { kind, open_before: Some(len) },
                ),
                _ => events,
            }
        } else {
            events
        }
    }

    /// Opens a node around the node that was closed at `mark`.
    pub fn open_before(&mut self, mark: CloseMark) -> (m: OpenMark)
        requires
            old(self).wf(),
        ensures
            final(self).wf(),
            m.index() == mark.index(),
            final(self)@ == (ParserView {
                events: Parser::linked(
                    old(self)@.events,
                    mark.index() as int,
                    old(self)@.events.len() as usize,
                ).push(ParserEvent::Open { kind: SyntaxKind::Error, open_before: None }),
                ..old(self)@
            }),
    {
        let len = self.events.len();
        if mark.get() < len {
            match self.events[mark.get()] {
                ParserEvent::Open { kind, open_before } => {
                    self.events.set(
                        mark.get(),
                        ParserEvent::Open { kind, open_before: Some(len) },
                    );
                },
                _ => {},
            }
        }
        self.events.push(ParserEvent::Open { kind: SyntaxKind::Error, open_before: None });
        OpenMark::new(mark.get())
    }

    /// Takes the next token into the open node. There has to be a token, and the bytes
    /// since the last node was closed have to be countable in 32 bits.
    pub fn advance(&mut self)
        requires
            old(self).wf(),
            old(self)@.tokens.len() > 0,
            old(self)@.token_len + old(self)@.tokens[0].span.spec_len() <= u32::MAX,
        ensures
            final(self).wf(),
            final(self)@ == (ParserView {
                events: old(self)@.events.push(ParserEvent::Advance),
                tokens: old(self)@.tokens.drop_first(),
                token_len: (old(self)@.token_len + old(self)@.tokens[0].span.spec_len()) as u32,
                fuel: MAX_FUEL,
                ..old(self)@
            }),
    {
        self.events.push(ParserEvent::Advance);
        self.fuel = MAX_FUEL;
        if let Some(token) = self.iter.next() {
            self.token_len += token.span.len() as u32;
        }
    }

    /// The kind of the token `n` places behind the next one. Every look takes one of the
    /// looks that are left, of which there has to be one.
    pub fn nth(&mut self, n: usize) -> (t: LexToken)
        requires
            old(self).wf(),
            old(self)@.fuel > 0,
        ensures
            final(self).wf(),
            t == old(self)@.nth(n as int),
            final(self)@ == (ParserView { fuel: (old(self)@.fuel - 1) as usize, ..old(self)@ }),
    {
        self.fuel = self.fuel - 1;
        match self.iter.peek_nth(n) {
            Some(it) => it.value,
            None => LexToken::Eof,
        }
    }

    /// Whether the next token is of the kind `token`.
    pub fn at(&mut self, token: LexToken) -> (b: bool)
        requires
            old(self).wf(),
            old(self)@.fuel > 0,
        ensures
            final(self).wf(),
            b == (old(self)@.nth(0) == token),
            final(self)@ == (ParserView { fuel: (old(self)@.fuel - 1) as usize, ..old(self)@ }),
    {
        self.nth(0) == token
    }

    /// Whether the next token is of one of the kinds in `set`.
    pub fn at_any(&mut self, set: TokenSet) -> (b: bool)
        requires
            old(self).wf(),
            old(self)@.fuel > 0,
        ensures
            final(self).wf(),
            b == set@.contains(old(self)@.nth(0)),
            final(self)@ == (ParserView { fuel: (old(self)@.fuel - 1) as usize, ..old(self)@ }),
    {
        set.contains(self.nth(0))
    }

    /// Whether every token has been consumed.
    pub fn eof(&mut self) -> (b: bool)
        requires
            old(self).wf(),
        ensures
            final(self).wf(),
            final(self)@ == old(self)@,
            b == (old(self)@.tokens.len() == 0),
    {
        self.iter.peek().is_none()
    }
}

} // verus!
