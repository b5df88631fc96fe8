//! The rules of the classifier: how the tokens of a text become syntax tokens.

use super::converter::{Conv, Converter};
use super::errors::PreparseErrorKind;
use super::lexed_str::Lexed;
use crate::lexer::token::total_len;
use crate::lexer::{Token, TokenKind};
use crate::parser::syntax::Trivia;
use crate::parser::SyntaxKind;
use vstd::prelude::*;

verus! {

/// Whether a token of the kind `token` becomes a syntax token by itself.
pub open spec fn is_basic(token: TokenKind) -> bool {
    token != TokenKind::CommandIdent && token != TokenKind::Newline && token != TokenKind::Number
        && token != TokenKind::Dot && token != TokenKind::Dollar && token != TokenKind::Unknown
}

/// The syntax kind of a token that becomes a syntax token by itself.
pub open spec fn basic_kind(token: TokenKind) -> SyntaxKind {
    match token {
        TokenKind::Whitespace => SyntaxKind::Whitespace,
        TokenKind::Word => SyntaxKind::Word,
        TokenKind::AWord => SyntaxKind::AWord,
        TokenKind::Comment => SyntaxKind::Comment,
        TokenKind::AComment => SyntaxKind::AComment,
        TokenKind::OpenBrace => SyntaxKind::OpenBrace,
        TokenKind::CloseBrace => SyntaxKind::CloseBrace,
        TokenKind::OpenBracket => SyntaxKind::OpenBracket,
        TokenKind::CloseBracket => SyntaxKind::CloseBracket,
        TokenKind::OpenParen => SyntaxKind::OpenParen,
        TokenKind::CloseParen => SyntaxKind::CloseParen,
        TokenKind::Star => SyntaxKind::Star,
        TokenKind::NumSign => SyntaxKind::NumSign,
        TokenKind::Carret => SyntaxKind::Carret,
        TokenKind::Underscore => SyntaxKind::Underscore,
        TokenKind::Apostrophe => SyntaxKind::SingleApostrophe,
        TokenKind::DoubleApostrophe => SyntaxKind::DoubleApostrophe,
        TokenKind::Slash => SyntaxKind::Slash,
        TokenKind::Tilde => SyntaxKind::Tilde,
        TokenKind::Comma => SyntaxKind::Comma,
        TokenKind::Semicolon => SyntaxKind::Semicolon,
        TokenKind::Ampersand => SyntaxKind::Ampersand,
        TokenKind::Pipe => SyntaxKind::Pipe,
        TokenKind::Colon => SyntaxKind::Colon,
        TokenKind::Plus => SyntaxKind::Plus,
        TokenKind::Minus => SyntaxKind::Minus,
        TokenKind::Question => SyntaxKind::Question,
        TokenKind::At => SyntaxKind::At,
        TokenKind::Equal => SyntaxKind::Equal,
        TokenKind::Less => SyntaxKind::Less,
        TokenKind::Greater => SyntaxKind::Greater,
        TokenKind::Bang => SyntaxKind::Bang,
        TokenKind::Eof => SyntaxKind::Eof,
        _ => SyntaxKind::Error,
    }
}

impl Conv {
    /// Whether the token behind the next one lets a name go on over an underscore.
    pub open spec fn is_valid_in_cmd(self) -> bool {
        let k = self.peek_second();
        k == TokenKind::AWord || k == TokenKind::Number || k == TokenKind::Underscore || k
            == TokenKind::Colon
    }

    /// Whether the next token goes on a name: an ASCII word, a number, or an underscore
    /// that something of a name follows.
    pub open spec fn in_name(self) -> bool {
        let k = self.peek_first();
        k == TokenKind::AWord || k == TokenKind::Number || (k == TokenKind::Underscore
            && self.is_valid_in_cmd())
    }

    /// The converter behind the tokens that go on a name.
    pub open spec fn name_run(self) -> Conv
        decreases self.tokens.len() - self.idx,
    {
        if self.in_name() {
            self.advance().name_run()
        } else {
            self
        }
    }

    /// The converter behind the newlines that follow, a whitespace between two of them
    /// taken with them.
    pub open spec fn newline_run(self) -> Conv
        decreases self.tokens.len() - self.idx,
    {
        if !self.is_eof() && (self.at(TokenKind::Newline) || (self.at(TokenKind::Whitespace)
            && self.at_second(TokenKind::Newline))) {
            self.advance().newline_run()
        } else {
            self
        }
    }

    /// The converter behind the closing quote of a string, or at the end of the text.
    pub open spec fn string_run(self) -> Conv
        decreases self.tokens.len() - self.idx,
    {
        if self.is_eof() {
            self
        } else if self.at(TokenKind::DoubleApostrophe) {
            self.advance()
        } else {
            self.advance().string_run()
        }
    }

    /// A newline has been consumed: it is a `Newline` by itself and a `Break` together
    /// with the newlines that follow it.
    pub open spec fn newline(self) -> Conv {
        if !self.at(TokenKind::Newline) {
            self.add_token(SyntaxKind::Newline)
        } else {
            self.newline_run().add_token(SyntaxKind::Break)
        }
    }

    /// A number has been consumed: with a dot and a number behind it, it is a `Float`.
    pub open spec fn number(self) -> Conv {
        if self.at(TokenKind::Dot) && self.at_second(TokenKind::Number) {
            self.advance().advance().add_token(SyntaxKind::Float)
        } else {
            self.add_token(SyntaxKind::Number)
        }
    }

    /// A dot has been consumed: with a number behind it, it is a `Float`.
    pub open spec fn dot(self) -> Conv {
        if self.at(TokenKind::Number) {
            self.advance().add_token(SyntaxKind::Float)
        } else {
            self.add_token(SyntaxKind::Dot)
        }
    }

    /// A double quote has been consumed: all up to the next one is a `String`.
    pub open spec fn string(self) -> Conv {
        self.string_run().add_token(SyntaxKind::String)
    }

    /// A '#' has been consumed and a number or an ASCII word follows: with a number it is
    /// a simple parameter, with a name a complex one.
    pub open spec fn macro_expansion_token(self) -> Conv {
        if self.at(TokenKind::Number) {
            self.advance().add_token(SyntaxKind::SimpleMacroExpansionToken)
        } else {
            self.name_run().add_token(SyntaxKind::ComplexMacroExpansionToken)
        }
    }

    /// A '#' has been consumed.
    pub open spec fn raw(self) -> Conv {
        if self.at(TokenKind::Greater) && self.at_second(TokenKind::Greater) {
            self.advance().advance().add_token(SyntaxKind::RawDelimiter)
        } else if self.at(TokenKind::AWord) || self.at(TokenKind::Number) {
            self.macro_expansion_token()
        } else {
            self.add_token(SyntaxKind::NumSign)
        }
    }

    /// The next token is the '@' of a variable.
    pub open spec fn variable(self) -> Conv {
        let at_name = self.advance();
        let kind = at_name.peek_first();
        let behind = at_name.advance();
        let begun = if kind == TokenKind::AWord || (kind == TokenKind::Underscore
            && behind.is_valid_in_cmd()) {
            behind
        } else {
            behind.add_error(PreparseErrorKind::InvalidVariableName)
        };
        begun.name_run().add_token(SyntaxKind::Variable)
    }

    /// The name of a command goes on from the next token. `after_path_spec` says whether a
    /// path separator was the last thing consumed.
    pub open spec fn command_inner(self, after_path_spec: bool) -> Conv
        decreases self.tokens.len() - self.idx,
    {
        let k = self.peek_first();
        if self.is_eof() {
            self.add_command()
        } else if self.in_name() {
            self.advance().command_inner(false)
        } else if k == TokenKind::Colon && after_path_spec {
            self.advance_with_error(PreparseErrorKind::InvalidCommandName)
        } else if k == TokenKind::Colon && self.peek_second() == TokenKind::Colon {
            self.add_token(SyntaxKind::Namespace).advance().advance().add_token(
                SyntaxKind::PathSeperator,
            ).command_inner(true)
        } else if k == TokenKind::At {
            self.variable()
        } else if k == TokenKind::Star {
            self.advance().add_command()
        } else {
            self.add_command()
        }
    }

    /// The next two tokens are the colons of a path separator right behind the backslash.
    pub open spec fn path_begin(self) -> Conv {
        self.advance().advance().add_token(SyntaxKind::PathSeperator).command_inner(true)
    }

    /// A backslash has been consumed.
    pub open spec fn command(self) -> Conv {
        let k = self.peek_first();
        if k == TokenKind::AWord || k == TokenKind::Underscore {
            let begun = self.advance();
            if begun.is_eof() {
                begun.add_command()
            } else {
                begun.command_inner(false)
            }
        } else if k == TokenKind::At {
            self.variable()
        } else if k == TokenKind::Colon && self.at_second(TokenKind::Colon) {
            self.path_begin()
        } else if k.trivia() || k == TokenKind::Eof {
            self.advance_with_error(PreparseErrorKind::CommandNameMissing)
        } else if k == TokenKind::Word {
            self.advance_with_error(PreparseErrorKind::InvalidCommandName)
        } else {
            self.advance().add_command()
        }
    }

    /// Takes the next token, and what belongs to it, into one or more syntax tokens.
    pub open spec fn token(self) -> Conv {
        let k = self.peek_first();
        let taken = self.advance();
        if k == TokenKind::CommandIdent {
            taken.command()
        } else if k == TokenKind::Newline {
            taken.newline()
        } else if k == TokenKind::Less && taken.at(TokenKind::Equal) {
            taken.advance_with_token(SyntaxKind::LessEq)
        } else if k == TokenKind::Greater && taken.at(TokenKind::Equal) {
            taken.advance_with_token(SyntaxKind::GreaterEq)
        } else if k == TokenKind::Equal && taken.at(TokenKind::Equal) {
            taken.advance_with_token(SyntaxKind::Comparison)
        } else if k == TokenKind::Minus && taken.at(TokenKind::Greater) {
            taken.advance_with_token(SyntaxKind::RightArrow)
        } else if k == TokenKind::Dollar {
            taken.add_token(SyntaxKind::MathDelimiter)
        } else if k == TokenKind::Number {
            taken.number()
        } else if k == TokenKind::Dot {
            taken.dot()
        } else if k == TokenKind::DoubleApostrophe {
            taken.string()
        } else if k == TokenKind::NumSign {
            taken.raw()
        } else {
            taken.add_token(basic_kind(k))
        }
    }

    /// The converter at the end of the text, every token taken into syntax tokens.
    pub open spec fn convert_run(self) -> Conv
        decreases self.tokens.len() - self.idx,
    {
        if self.is_eof() {
            self
        } else {
            let taken = self.token();
            if taken.tokens == self.tokens && self.idx < taken.idx <= taken.tokens.len() {
                taken.convert_run()
            } else {
                taken
            }
        }
    }

    /// The whole text classified, the `Eof` token at its end.
    pub open spec fn convert(self) -> Conv {
        self.convert_run().add_token(SyntaxKind::Eof)
    }
}

/// The classification of the text `src`, whose tokens are `tokens`.
pub open spec fn classify(tokens: Seq<Token>, src: Seq<u8>) -> Lexed {
    (Conv { tokens, idx: 0, position: 0, offset: 0, out: Lexed::empty(src) }).convert().out
}

impl<'source> Converter<'source> {
    pub(super) fn convert(&mut self)
        requires
            old(self).wf(),
            old(self)@.offset == 0,
        ensures
            final(self).wf(),
            final(self)@ == old(self)@.convert(),
            final(self)@.follows(old(self)@),
            final(self).source() == old(self).source(),
            final(self)@.idx == final(self)@.tokens.len(),
            final(self)@.offset == 0,
            final(self)@.out.tokens.len() > 0,
            final(self)@.out.tokens.last() == SyntaxKind::Eof,
            final(self)@.out.start.last() == total_len(final(self)@.tokens),
    {
        while !self.is_eof()
            invariant
                self.wf(),
                self@.follows(old(self)@),
                self@.offset == 0,
                self@.convert_run() == old(self)@.convert_run(),
                self.source() == old(self).source(),
            decreases self@.tokens.len() - self@.idx,
        {
            self.token();
        }
        assert(self@.tokens.take(self@.idx) =~= self@.tokens);
        self.add_token(SyntaxKind::Eof)
    }

    fn token(&mut self)
        requires
            old(self).wf(),
            !old(self)@.is_eof(),
        ensures
            final(self).wf(),
            final(self)@ == old(self)@.token(),
            final(self)@.offset == 0,
            final(self)@.follows(old(self)@),
            old(self)@.idx < final(self)@.idx,
            final(self).source() == old(self).source(),
    {
        let kind = self.advance();
        if kind == TokenKind::CommandIdent {
            self.command()
        } else if kind == TokenKind::Newline {
            self.newline()
        } else if kind == TokenKind::Less && self.at(TokenKind::Equal) {
            self.advance_with_token(SyntaxKind::LessEq)
        } else if kind == TokenKind::Greater && self.at(TokenKind::Equal) {
            self.advance_with_token(SyntaxKind::GreaterEq)
        } else if kind == TokenKind::Equal && self.at(TokenKind::Equal) {
            self.advance_with_token(SyntaxKind::Comparison)
        } else if kind == TokenKind::Minus && self.at(TokenKind::Greater) {
            self.advance_with_token(SyntaxKind::RightArrow)
        } else if kind == TokenKind::Dollar {
            self.add_token(SyntaxKind::MathDelimiter)
        } else if kind == TokenKind::Number {
            self.number()
        } else if kind == TokenKind::Dot {
            self.dot()
        } else if kind == TokenKind::DoubleApostrophe {
            self.string()
        } else if kind == TokenKind::NumSign {
            self.raw()
        } else {
            assert(old(self)@.idx < old(self)@.tokens.len());
            assert(old(self)@.tokens[old(self)@.idx].kind != TokenKind::Unknown);
            let kind = self.basic_token_kind(kind);
            self.add_token(kind);
        }
    }

    fn command(&mut self)
        requires
            old(self).wf(),
        ensures
            final(self).wf(),
            final(self)@ == old(self)@.command(),
            final(self)@.offset == 0,
            final(self)@.follows(old(self)@),
            final(self).source() == old(self).source(),
    {
        let first = self.peek_first();
        if first == TokenKind::AWord || first == TokenKind::Underscore {
            self.advance();
            // only a name that begins like this can go on
            if self.is_eof() {
                self.add_command();
            } else {
                self.command_inner(false);
            }
        } else if first == TokenKind::At {
            self.variable()
        } else if first == TokenKind::Colon && self.at_second(TokenKind::Colon) {
            self.path_begin()
        } else if first.is_trivia() || first == TokenKind::Eof {
            self.advance_with_error(PreparseErrorKind::CommandNameMissing)
        } else if first == TokenKind::Word {
            self.advance_with_error(PreparseErrorKind::InvalidCommandName)
        } else {
            self.advance();
            self.add_command();
        }
    }

    fn path_begin(&mut self)
        requires
            old(self).wf(),
        ensures
            final(self).wf(),
            final(self)@ == old(self)@.path_begin(),
            final(self)@.offset == 0,
            final(self)@.follows(old(self)@),
            final(self).source() == old(self).source(),
    {
        proof {
            reveal_with_fuel(Conv::advance_by, 3);
        }
        self.advance_by(2);
        self.add_token(SyntaxKind::PathSeperator);
        self.command_inner(true)
    }

    fn command_inner(&mut self, after_path_spec: bool)
        requires
            old(self).wf(),
        ensures
            final(self).wf(),
            final(self)@ == old(self)@.command_inner(after_path_spec),
            final(self)@.offset == 0,
            final(self)@.follows(old(self)@),
            final(self).source() == old(self).source(),
        decreases old(self)@.tokens.len() - old(self)@.idx,
    {
        let ghost entry = self@;
        let mut after = after_path_spec;
        while !self.is_eof()
            invariant
                self.wf(),
                self@.follows(old(self)@),
                entry == old(self)@,
                self@.command_inner(after) == entry.command_inner(after_path_spec),
                self.source() == old(self).source(),
            ensures
                self@.add_command() == entry.command_inner(after_path_spec),
            decreases self@.tokens.len() - self@.idx,
        {
            let kind = self.peek_first();
            if self.in_name() {
            } else if kind == TokenKind::Colon && after {
                return self.advance_with_error(PreparseErrorKind::InvalidCommandName);
            } else if kind == TokenKind::Colon && self.peek_second() == TokenKind::Colon {
                proof {
                    reveal_with_fuel(Conv::advance_by, 3);
                }
                self.add_token(SyntaxKind::Namespace);
                self.advance_by(2);
                self.add_token(SyntaxKind::PathSeperator);
                return self.command_inner(true);
            } else if kind == TokenKind::At {
                return self.variable();
            } else if kind == TokenKind::Star {
                self.advance();
                return self.add_command();
            } else {
                break ;
            }
            after = false;
            self.advance();
        }
        self.add_command()
    }

    fn is_valid_in_cmd(&self) -> (b: bool)
        requires
            self.wf(),
        ensures
            b == self@.is_valid_in_cmd(),
    {
        let k = self.peek_second();
        k == TokenKind::AWord || k == TokenKind::Number || k == TokenKind::Underscore || k
            == TokenKind::Colon
    }

    /// Whether the next token goes on a name.
    fn in_name(&self) -> (b: bool)
        requires
            self.wf(),
        ensures
            b == self@.in_name(),
    {
        let k = self.peek_first();
        k == TokenKind::AWord || k == TokenKind::Number || (k == TokenKind::Underscore
            && self.is_valid_in_cmd())
    }

    fn variable(&mut self)
        requires
            old(self).wf(),
        ensures
            final(self).wf(),
            final(self)@ == old(self)@.variable(),
            final(self)@.offset == 0,
            final(self)@.follows(old(self)@),
            final(self).source() == old(self).source(),
    {
        self.advance();
        let kind = self.advance();
        if kind == TokenKind::AWord || (kind == TokenKind::Underscore && self.is_valid_in_cmd()) {
        } else {
            self.add_error(PreparseErrorKind::InvalidVariableName)
        }
        self.name_run();
        self.add_token(SyntaxKind::Variable);
    }

    /// Consumes the tokens that go on a name.
    fn name_run(&mut self)
        requires
            old(self).wf(),
        ensures
            final(self).wf(),
            final(self)@ == old(self)@.name_run(),
            final(self)@.follows(old(self)@),
            final(self).source() == old(self).source(),
    {
        while !self.is_eof()
            invariant
                self.wf(),
                self@.follows(old(self)@),
                self@.name_run() == old(self)@.name_run(),
                self.source() == old(self).source(),
            ensures
                self@ == old(self)@.name_run(),
            decreases self@.tokens.len() - self@.idx,
        {
            if !self.in_name() {
                break ;
            }
            self.advance();
        }
    }

    fn newline(&mut self)
        requires
            old(self).wf(),
        ensures
            final(self).wf(),
            final(self)@ == old(self)@.newline(),
            final(self)@.offset == 0,
            final(self)@.follows(old(self)@),
            final(self).source() == old(self).source(),
    {
        if !self.at(TokenKind::Newline) {
            return self.add_token(SyntaxKind::Newline);
        }
        while !self.is_eof()
            invariant
                self.wf(),
                self@.follows(old(self)@),
                self@.newline_run() == old(self)@.newline_run(),
                self.source() == old(self).source(),
            ensures
                self@ == old(self)@.newline_run(),
            decreases self@.tokens.len() - self@.idx,
        {
            if !self.at(TokenKind::Newline) {
                if !(self.at(TokenKind::Whitespace) && self.at_sec(TokenKind::Newline)) {
                    break ;
                }
            }
            self.advance();
        }
        self.add_token(SyntaxKind::Break)
    }

    fn number(&mut self)
        requires
            old(self).wf(),
        ensures
            final(self).wf(),
            final(self)@ == old(self)@.number(),
            final(self)@.offset == 0,
            final(self)@.follows(old(self)@),
            final(self).source() == old(self).source(),
    {
        if self.at(TokenKind::Dot) && self.at_sec(TokenKind::Number) {
            proof {
                reveal_with_fuel(Conv::advance_by, 3);
            }
            self.advance_by(2);
            self.add_token(SyntaxKind::Float);
        } else {
            self.add_token(SyntaxKind::Number)
        }
    }

    fn dot(&mut self)
        requires
            old(self).wf(),
        ensures
            final(self).wf(),
            final(self)@ == old(self)@.dot(),
            final(self)@.offset == 0,
            final(self)@.follows(old(self)@),
            final(self).source() == old(self).source(),
    {
        if self.at(TokenKind::Number) {
            self.advance();
            self.add_token(SyntaxKind::Float)
        } else {
            self.add_token(SyntaxKind::Dot)
        }
    }

    fn string(&mut self)
        requires
            old(self).wf(),
        ensures
            final(self).wf(),
            final(self)@ == old(self)@.string(),
            final(self)@.offset == 0,
            final(self)@.follows(old(self)@),
            final(self).source() == old(self).source(),
    {
        while !self.is_eof()
            invariant_except_break
                self@.string_run() == old(self)@.string_run(),
            invariant
                self.wf(),
                self@.follows(old(self)@),
                self.source() == old(self).source(),
            ensures
                self@ == old(self)@.string_run(),
            decreases self@.tokens.len() - self@.idx,
        {
            if self.at(TokenKind::DoubleApostrophe) {
                self.advance();
                break ;
            }
            self.advance();
        }
        self.add_token(SyntaxKind::String);
    }

    fn raw(&mut self)
        requires
            old(self).wf(),
        ensures
            final(self).wf(),
            final(self)@ == old(self)@.raw(),
            final(self)@.offset == 0,
            final(self)@.follows(old(self)@),
            final(self).source() == old(self).source(),
    {
        if self.at(TokenKind::Greater) && self.at_sec(TokenKind::Greater) {
            proof {
                reveal_with_fuel(Conv::advance_by, 3);
            }
            self.advance_by(2);
            self.add_token(SyntaxKind::RawDelimiter);
        } else if self.at(TokenKind::AWord) || self.at(TokenKind::Number) {
            self.macro_expansion_token()
        } else {
            self.add_token(SyntaxKind::NumSign)
        }
    }

    fn macro_expansion_token(&mut self)
        requires
            old(self).wf(),
        ensures
            final(self).wf(),
            final(self)@ == old(self)@.macro_expansion_token(),
            final(self)@.offset == 0,
            final(self)@.follows(old(self)@),
            final(self).source() == old(self).source(),
    {
        if self.eat(TokenKind::Number) {
            self.add_token(SyntaxKind::SimpleMacroExpansionToken);
            return ;
        }
        self.name_run();
        self.add_token(SyntaxKind::ComplexMacroExpansionToken)
    }

    /// The syntax kind of a token that becomes a syntax token by itself.
    fn basic_token_kind(&self, token: TokenKind) -> (kind: SyntaxKind)
        requires
            is_basic(token),
        ensures
            kind == basic_kind(token),
    {
        match token {
            TokenKind::Whitespace => SyntaxKind::Whitespace,
            TokenKind::Word => SyntaxKind::Word,
            TokenKind::AWord => SyntaxKind::AWord,
            TokenKind::Comment => SyntaxKind::Comment,
            TokenKind::AComment => SyntaxKind::AComment,
            TokenKind::OpenBrace => SyntaxKind::OpenBrace,
            TokenKind::CloseBrace => SyntaxKind::CloseBrace,
            TokenKind::OpenBracket => SyntaxKind::OpenBracket,
            TokenKind::CloseBracket => SyntaxKind::CloseBracket,
            TokenKind::OpenParen => SyntaxKind::OpenParen,
            TokenKind::CloseParen => SyntaxKind::CloseParen,
            TokenKind::Star => SyntaxKind::Star,
            TokenKind::NumSign => SyntaxKind::NumSign,
            TokenKind::Carret => SyntaxKind::Carret,
            TokenKind::Underscore => SyntaxKind::Underscore,
            TokenKind::Apostrophe => SyntaxKind::SingleApostrophe,
            TokenKind::DoubleApostrophe => SyntaxKind::DoubleApostrophe,
            TokenKind::Slash => SyntaxKind::Slash,
            TokenKind::Tilde => SyntaxKind::Tilde,
            TokenKind::Comma => SyntaxKind::Comma,
            TokenKind::Semicolon => SyntaxKind::Semicolon,
            TokenKind::Ampersand => SyntaxKind::Ampersand,
            TokenKind::Pipe => SyntaxKind::Pipe,
            TokenKind::Colon => SyntaxKind::Colon,
            TokenKind::Plus => SyntaxKind::Plus,
            TokenKind::Minus => SyntaxKind::Minus,
            TokenKind::Question => SyntaxKind::Question,
            TokenKind::At => SyntaxKind::At,
            TokenKind::Equal => SyntaxKind::Equal,
            TokenKind::Less => SyntaxKind::Less,
            TokenKind::Greater => SyntaxKind::Greater,
            TokenKind::Bang => SyntaxKind::Bang,
            TokenKind::Eof => SyntaxKind::Eof,
            _ => SyntaxKind::Error,
        }
    }
}

} // verus!
