//! The machinery of the classifier: a walk over the tokens of the text with two tokens of
//! lookahead, the count of the bytes consumed, and the result under construction.

use super::errors::PreparseErrorKind;
use super::lexed_str::{DefinitionKind, Lexed, LexedStr};
use crate::lexer::token::{clean, lemma_total_len_concat, tokens_fit, total_len};
use crate::lexer::{Token, TokenKind};
use crate::parser::utils::peek::{DualPeekIterator, Iterutils};
use crate::parser::SyntaxKind;
use crate::text::{same_text, slice, text_between};
use std::ops::Range;
use vstd::prelude::*;
use vstd::string::*;

verus! {

/// The bytes consumed of a text, and how many of them since the last token was added.
#[derive(Debug)]
pub struct Position {
    pub position: usize,
    pub offset: usize,
}

impl Position {
    pub fn new() -> (p: Position)
        ensures
            p.position == 0,
            p.offset == 0,
    {
        Position { position: 0, offset: 0 }
    }

    pub fn advance_by(&mut self, steps: usize)
        requires
            old(self).offset <= old(self).position,
            old(self).position + steps <= usize::MAX,
        ensures
            final(self).position == old(self).position + steps,
            final(self).offset == old(self).offset + steps,
    {
        self.position += steps;
        self.offset += steps;
    }

    /// The byte at which the token under construction starts; the next token starts where
    /// the walk stands.
    pub fn reset_to_start(&mut self) -> (ret: usize)
        requires
            old(self).offset <= old(self).position,
        ensures
            ret == old(self).position - old(self).offset,
            final(self).position == old(self).position,
            final(self).offset == 0,
    {
        let ret = self.position - self.offset;
        self.offset = 0;
        ret
    }

    /// The bytes of the token under construction.
    pub fn current_range(&self) -> (r: Range<usize>)
        requires
            self.offset <= self.position,
        ensures
            r.start == self.position - self.offset,
            r.end == self.position,
    {
        let start = self.position - self.offset;
        start..self.position
    }
}

/// What a converter holds: the tokens of the text, the number of them consumed, the bytes
/// consumed, the bytes consumed since the last syntax token was added, and the result so
/// far.
pub struct Conv {
    pub tokens: Seq<Token>,
    pub idx: int,
    pub position: int,
    pub offset: int,
    pub out: Lexed,
}

/// The command names that the classifier knows.
pub enum Keyword {
    Def,
    NewCommand,
    NewEnvironment,
    Input,
    UsePackage,
    Use,
    Fn,
    Pub,
    Let,
}

/// The keyword that `name` spells, if it spells one.
pub open spec fn keyword_of(name: Option<Seq<char>>) -> Option<Keyword> {
    if name == Some("\\def"@) {
        Some(Keyword::Def)
    } else if name == Some("\\newcommand"@) {
        Some(Keyword::NewCommand)
    } else if name == Some("\\newenvironment"@) {
        Some(Keyword::NewEnvironment)
    } else if name == Some("\\input"@) {
        Some(Keyword::Input)
    } else if name == Some("\\usepackage"@) {
        Some(Keyword::UsePackage)
    } else if name == Some("\\use"@) {
        Some(Keyword::Use)
    } else if name == Some("\\fn"@) {
        Some(Keyword::Fn)
    } else if name == Some("\\pub"@) {
        Some(Keyword::Pub)
    } else if name == Some("\\let"@) {
        Some(Keyword::Let)
    } else {
        None
    }
}

/// The keyword that `name` spells, if it spells one.
pub fn keyword(name: Option<&str>) -> (k: Option<Keyword>)
    ensures
        k == keyword_of(
            match name {
                Some(s) => Some(s@),
                None => None,
            },
        ),
{
    match name {
        None => None,
        Some(s) => {
            if same_text(s, "\\def") {
                Some(Keyword::Def)
            } else if same_text(s, "\\newcommand") {
                Some(Keyword::NewCommand)
            } else if same_text(s, "\\newenvironment") {
                Some(Keyword::NewEnvironment)
            } else if same_text(s, "\\input") {
                Some(Keyword::Input)
            } else if same_text(s, "\\usepackage") {
                Some(Keyword::UsePackage)
            } else if same_text(s, "\\use") {
                Some(Keyword::Use)
            } else if same_text(s, "\\fn") {
                Some(Keyword::Fn)
            } else if same_text(s, "\\pub") {
                Some(Keyword::Pub)
            } else if same_text(s, "\\let") {
                Some(Keyword::Let)
            } else {
                None
            }
        },
    }
}

impl Conv {
    /// The walk stands inside the tokens, the bytes consumed are those of the tokens
    /// consumed, and the offsets of the result are aligned and lie before the token under
    /// construction.
    pub open spec fn wf(self) -> bool {
        &&& 0 <= self.idx <= self.tokens.len()
        &&& clean(self.tokens)
        &&& total_len(self.tokens) <= usize::MAX
        &&& self.position == total_len(self.tokens.take(self.idx))
        &&& 0 <= self.offset <= self.position
        &&& self.out.aligned()
        &&& (self.out.start.len() == 0 ==> self.offset == self.position)
        &&& forall|i: int|
            0 <= i < self.out.start.len() ==> #[trigger] self.out.start[i] <= self.position
                - self.offset
        &&& self.out.indexed()
        &&& self.out.tokens.len() <= usize::MAX
        &&& tokens_fit(self.tokens, self.out.src)
        &&& self.out.on_boundaries()
        &&& vstd::utf8::is_char_boundary(self.out.src, self.position - self.offset)
    }

    /// Whether `self` comes behind `before` in the same walk over the same text.
    pub open spec fn follows(self, before: Conv) -> bool {
        &&& self.tokens == before.tokens
        &&& self.out.src == before.out.src
        &&& before.idx <= self.idx
    }

    /// The kind of the next token, `Eof` behind the last one.
    pub open spec fn peek_first(self) -> TokenKind {
        if 0 <= self.idx < self.tokens.len() {
            self.tokens[self.idx].kind
        } else {
            TokenKind::Eof
        }
    }

    /// The kind of the token behind the next one, `Eof` behind the last one.
    pub open spec fn peek_second(self) -> TokenKind {
        if 0 <= self.idx + 1 < self.tokens.len() {
            self.tokens[self.idx + 1].kind
        } else {
            TokenKind::Eof
        }
    }

    pub open spec fn is_eof(self) -> bool {
        self.peek_first() == TokenKind::Eof
    }

    pub open spec fn at(self, kind: TokenKind) -> bool {
        self.peek_first() == kind
    }

    pub open spec fn at_second(self, kind: TokenKind) -> bool {
        self.peek_second() == kind
    }

    /// The converter after the next token has been consumed; nothing moves behind the
    /// last token.
    pub open spec fn advance(self) -> Conv {
        if 0 <= self.idx < self.tokens.len() {
            Conv {
                idx: self.idx + 1,
                position: self.position + self.tokens[self.idx].len,
                offset: self.offset + self.tokens[self.idx].len,
                ..self
            }
        } else {
            self
        }
    }

    /// The converter after `step` tokens have been consumed.
    pub open spec fn advance_by(self, step: nat) -> Conv
        decreases step,
    {
        if step == 0 {
            self
        } else {
            self.advance().advance_by((step - 1) as nat)
        }
    }

    /// The byte at which the token under construction starts.
    pub open spec fn token_start(self) -> usize {
        (self.position - self.offset) as usize
    }

    pub open spec fn add_token(self, token: SyntaxKind) -> Conv {
        Conv { offset: 0, out: self.out.add_token(token, self.token_start()), ..self }
    }

    pub open spec fn add_error(self, err: PreparseErrorKind) -> Conv {
        Conv { offset: 0, out: self.out.add_error(err, self.token_start()), ..self }
    }

    pub open spec fn add_definition(self, token: SyntaxKind, def: DefinitionKind) -> Conv {
        Conv { offset: 0, out: self.out.add_definition(token, def, self.token_start()), ..self }
    }

    pub open spec fn advance_with_token(self, token: SyntaxKind) -> Conv {
        self.advance().add_token(token)
    }

    pub open spec fn advance_with_error(self, err: PreparseErrorKind) -> Conv {
        self.advance().add_error(err)
    }

    /// The text of the token under construction.
    pub open spec fn current_text(self) -> Option<Seq<char>> {
        text_between(self.out.src, self.position - self.offset, self.position)
    }

    /// Closes the token under construction as a command: a definition where its text is
    /// the name of one, a token of its own kind for the other keywords, and `Command`
    /// otherwise.
    pub open spec fn add_command(self) -> Conv {
        match keyword_of(self.current_text()) {
            Some(Keyword::Def) => self.add_definition(SyntaxKind::Def, DefinitionKind::Def),
            Some(Keyword::NewCommand) => self.add_definition(
                SyntaxKind::NewCommand,
                DefinitionKind::Macro,
            ),
            Some(Keyword::NewEnvironment) => self.add_definition(
                SyntaxKind::NewEnv,
                DefinitionKind::Environment,
            ),
            Some(Keyword::Input) => self.add_token(SyntaxKind::Input),
            Some(Keyword::UsePackage) => self.add_token(SyntaxKind::UsePackage),
            Some(Keyword::Use) => self.add_token(SyntaxKind::Use),
            Some(Keyword::Fn) => self.add_token(SyntaxKind::FunctionIdent),
            Some(Keyword::Pub) => self.add_token(SyntaxKind::Pub),
            Some(Keyword::Let) => self.add_token(SyntaxKind::Let),
            None => self.add_token(SyntaxKind::Command),
        }
    }

    /// One more step of the walk keeps the converter well-formed.
    pub proof fn lemma_advance(self)
        requires
            self.wf(),
        ensures
            self.advance().wf(),
            self.idx < self.tokens.len() ==> self.position + self.tokens[self.idx].len
                <= usize::MAX,
    {
        if self.idx < self.tokens.len() {
            let next = self.tokens.take(self.idx + 1);
            assert(next.drop_last() =~= self.tokens.take(self.idx));
            assert(next.last() == self.tokens[self.idx]);
            let rest = self.tokens.skip(self.idx + 1);
            assert(next + rest =~= self.tokens);
            lemma_total_len_concat(next, rest);
        }
    }
}

/// Turns the tokens of a text into its syntax tokens.
pub struct Converter<'source> {
    iter: DualPeekIterator<Token>,
    lexed: LexedStr<'source>,
    position: Position,
}

impl<'source> View for Converter<'source> {
    type V = Conv;

    closed spec fn view(&self) -> Conv {
        Conv {
            tokens: self.iter.items(),
            idx: self.iter.consumed(),
            position: self.position.position as int,
            offset: self.position.offset as int,
            out: self.lexed@,
        }
    }
}

impl<'source> Converter<'source> {
    /// The text that is classified.
    pub closed spec fn source(&self) -> &'source str {
        self.lexed.source()
    }

    /// The walk over the tokens stands inside them.
    pub closed spec fn walk_wf(&self) -> bool {
        self.iter.wf()
    }

    /// The converter is well-formed, and so is its walk.
    pub open spec fn wf(&self) -> bool {
        &&& self.walk_wf()
        &&& self@.wf()
    }

    /// A converter at the first of `tokens`, which are the tokens of the text of `lexed`.
    pub fn new(lexed: LexedStr<'source>, tokens: Vec<Token>) -> (c: Converter<'source>)
        requires
            clean(tokens@),
            total_len(tokens@) <= usize::MAX,
            tokens_fit(tokens@, lexed@.src),
            lexed@ == Lexed::empty(lexed@.src),
        ensures
            c.wf(),
            c@ == (Conv { tokens: tokens@, idx: 0, position: 0, offset: 0, out: lexed@ }),
            c.source() == lexed.source(),
    {
        let c = Converter { lexed, iter: tokens.peek_two(), position: Position::new() };
        assert(tokens@.take(0) =~= Seq::<Token>::empty());
        c
    }

    /// Classifies the tokens and hands out the result.
    pub fn transform(self) -> (l: LexedStr<'source>)
        requires
            self.wf(),
            self@.offset == 0,
        ensures
            l@ == self@.convert().out,
            l.source() == self.source(),
            l@.aligned(),
            l@.indexed(),
            l@.on_boundaries(),
            l@.tokens.len() > 0,
            l@.tokens.last() == SyntaxKind::Eof,
            l@.start.last() == total_len(self@.tokens),
    {
        let mut converter = self;
        converter.convert();
        converter.lexed
    }

    pub(super) fn is_eof(&self) -> (b: bool)
        requires
            self.wf(),
        ensures
            b == self@.is_eof(),
            !b ==> self@.idx < self@.tokens.len(),
            b ==> self@.idx == self@.tokens.len(),
    {
        self.peek_first() == TokenKind::Eof
    }

    pub(super) fn advance(&mut self) -> (kind: TokenKind)
        requires
            old(self).wf(),
        ensures
            final(self).wf(),
            final(self)@ == old(self)@.advance(),
            kind == old(self)@.peek_first(),
            final(self).source() == old(self).source(),
    {
        proof {
            self.iter.lemma_view();
            self@.lemma_advance();
        }
        let (kind, len) = match self.iter.next() {
            Some(it) => (it.kind, it.len),
            None => (TokenKind::Eof, 0),
        };
        self.position.advance_by(len);
        kind
    }

    pub(super) fn advance_by(&mut self, step: usize) -> (last: TokenKind)
        requires
            old(self).wf(),
            0 < step,
        ensures
            final(self).wf(),
            final(self)@ == old(self)@.advance_by(step as nat),
            final(self).source() == old(self).source(),
    {
        let mut last = TokenKind::Eof;
        let mut i: usize = 0;
        while i < step
            invariant
                self.wf(),
                i <= step,
                self@.advance_by((step - i) as nat) == old(self)@.advance_by(step as nat),
                self.source() == old(self).source(),
            decreases step - i,
        {
            last = self.advance();
            i += 1;
        }
        last
    }

    pub(super) fn peek_first(&self) -> (kind: TokenKind)
        requires
            self.wf(),
        ensures
            kind == self@.peek_first(),
    {
        proof {
            self.iter.lemma_view();
        }
        match self.iter.peek_first() {
            Some(it) => it.kind,
            None => TokenKind::Eof,
        }
    }

    pub(super) fn peek_second(&self) -> (kind: TokenKind)
        requires
            self.wf(),
        ensures
            kind == self@.peek_second(),
    {
        proof {
            self.iter.lemma_view();
        }
        match self.iter.peek_second() {
            Some(it) => it.kind,
            None => TokenKind::Eof,
        }
    }

    pub(super) fn at(&self, kind: TokenKind) -> (b: bool)
        requires
            self.wf(),
        ensures
            b == self@.at(kind),
    {
        self.peek_first() == kind
    }

    pub(super) fn at_second(&self, kind: TokenKind) -> (b: bool)
        requires
            self.wf(),
        ensures
            b == self@.at_second(kind),
    {
        self.peek_second() == kind
    }

    pub(super) fn at_sec(&self, kind: TokenKind) -> (b: bool)
        requires
            self.wf(),
        ensures
            b == self@.at_second(kind),
    {
        self.peek_second() == kind
    }

    pub(super) fn eat(&mut self, kind: TokenKind) -> (b: bool)
        requires
            old(self).wf(),
        ensures
            final(self).wf(),
            b == old(self)@.at(kind),
            final(self)@ == (if b {
                old(self)@.advance()
            } else {
                old(self)@
            }),
            final(self).source() == old(self).source(),
    {
        if self.at(kind) {
            self.advance();
            true
        } else {
            false
        }
    }

    pub(super) fn advance_with_token(&mut self, token: SyntaxKind)
        requires
            old(self).wf(),
        ensures
            final(self).wf(),
            final(self)@ == old(self)@.advance_with_token(token),
            final(self).source() == old(self).source(),
    {
        self.advance();
        self.add_token(token);
    }

    pub(super) fn advance_with_error(&mut self, err: PreparseErrorKind)
        requires
            old(self).wf(),
        ensures
            final(self).wf(),
            final(self)@ == old(self)@.advance_with_error(err),
            final(self).source() == old(self).source(),
    {
        self.advance();
        self.add_error(err);
    }

    pub(super) fn add_error(&mut self, err: PreparseErrorKind)
        requires
            old(self).wf(),
        ensures
            final(self).wf(),
            final(self)@ == old(self)@.add_error(err),
            final(self).source() == old(self).source(),
    {
        let start = self.position.reset_to_start();
        self.lexed.add_error(err, start);
    }

    pub(super) fn add_token(&mut self, token: SyntaxKind)
        requires
            old(self).wf(),
        ensures
            final(self).wf(),
            final(self)@ == old(self)@.add_token(token),
            final(self).source() == old(self).source(),
    {
        let start = self.position.reset_to_start();
        self.lexed.add_token(token, start);
    }

    pub(super) fn add_command(&mut self)
        requires
            old(self).wf(),
        ensures
            final(self).wf(),
            final(self)@ == old(self)@.add_command(),
            final(self).source() == old(self).source(),
    {
        let range = self.position.current_range();
        let text = slice(self.lexed.src(), range.start, range.end);
        match keyword(text) {
            Some(Keyword::Def) => self.add_definition(SyntaxKind::Def, DefinitionKind::Def),
            Some(Keyword::NewCommand) => self.add_definition(
                SyntaxKind::NewCommand,
                DefinitionKind::Macro,
            ),
            Some(Keyword::NewEnvironment) => self.add_definition(
                SyntaxKind::NewEnv,
                DefinitionKind::Environment,
            ),
            Some(Keyword::Input) => self.add_token(SyntaxKind::Input),
            Some(Keyword::UsePackage) => self.add_token(SyntaxKind::UsePackage),
            Some(Keyword::Use) => self.add_token(SyntaxKind::Use),
            Some(Keyword::Fn) => self.add_token(SyntaxKind::FunctionIdent),
            Some(Keyword::Pub) => self.add_token(SyntaxKind::Pub),
            Some(Keyword::Let) => self.add_token(SyntaxKind::Let),
            None => self.add_token(SyntaxKind::Command),
        }
    }

    fn add_definition(&mut self, token: SyntaxKind, def: DefinitionKind)
        requires
            old(self).wf(),
        ensures
            final(self).wf(),
            final(self)@ == old(self)@.add_definition(token, def),
            final(self).source() == old(self).source(),
    {
        let start = self.position.reset_to_start();
        self.lexed.add_definition(token, def, start)
    }
}

} // verus!
