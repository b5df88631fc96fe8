//! The outline of a text: its syntax tokens, with the places where commands and
//! environments are defined and where packages and files are taken in.
//!
//! The outline reads the names of commands in which parts are set off by single colons
//! and underscores, as in `\cs_new:Npn`. It tells the names that can only be commands
//! from those that may be functions as well, and it checks names, variables and paths
//! more closely than the classifier that feeds the resolver does.

use crate::lexer::token::{clean, lemma_total_len_concat, tokens_fit, tokenize, tokens_of, total_len};
use crate::lexer::cursor::graphemes;
use crate::lexer::{Token, TokenKind};
use crate::parser::syntax::Trivia;
use crate::parser::utils::peek::{DualPeekIterator, Iterutils};
use crate::parser::SyntaxKind;
use crate::text::{same_text, slice, text_between};
use vstd::prelude::*;
use vstd::string::*;

verus! {

/// The kinds of definitions.
#[derive(Debug, Copy, Clone, Eq, PartialEq, Structural)]
pub enum DefinitionKind {
    /// `\usepackage`.
    Package,
    /// `\include`.
    Include,
    /// `\input`.
    Input,
    /// `\newcommand`.
    Command,
    /// `\def`.
    Def,
    /// `\newenvironment`.
    Environment,
}

/// A definition found in a text: its kind and the index of the `Command` token that
/// heads it.
#[derive(Debug, Copy, Clone, Eq, PartialEq, Structural)]
pub struct Definition {
    pub kind: DefinitionKind,
    pub idx: usize,
}

impl Definition {
    pub fn new(kind: DefinitionKind, idx: usize) -> (d: Definition)
        ensures
            d == (Definition { kind, idx }),
    {
        Definition { kind, idx }
    }
}

/// What is wrong with a name.
#[derive(Debug, Copy, Clone, Eq, PartialEq, Structural)]
pub enum PreparseErrorKind {
    /// The backslash is followed by whitespace, a newline, a comment or the end of the text.
    CommandOrFunctionNameMissing,
    /// The backslash is followed by a word that is not ASCII.
    InvalidCommandOrFunctionName,
    /// The name ends with a colon.
    InvalidCommandOrFunctionNameEnding,
    /// The name of more than one character begins with a number.
    InvalidCommandOrFunctionPrefix,
    /// The '@' of a variable is followed by whitespace, a newline, a comment or the end of
    /// the text.
    VariableNameMissing,
    /// The '@' of a variable is followed by something that cannot begin a name.
    InvalidVariableName,
    /// The name of a variable ends with an underscore.
    InvalidVariableNameEnding,
    /// A single colon stands where the two colons of a path separator have to stand.
    InvalidPathSpecSeperator,
    /// The name of a function does not begin like a name.
    InvalidFunctionName,
    /// A path separator is followed by whitespace, a newline, a comment or the end of the
    /// text where the name of a function has to stand.
    FunctionNameMissing,
    /// A part of a path does not begin like a name.
    InvalidPathSpecModuleName,
    /// A part of a path is missing.
    PathSpecModuleNameMissing,
}

/// A malformed name: what is wrong with it, and the number of tokens of the outline up to
/// and with the `Error` token that stands for it.
#[derive(Debug, Copy, Clone, Eq, PartialEq, Structural)]
pub struct PreparseError {
    pub kind: PreparseErrorKind,
    pub idx: usize,
}

impl PreparseError {
    pub fn new(kind: PreparseErrorKind, idx: usize) -> (e: PreparseError)
        ensures
            e == (PreparseError { kind, idx }),
    {
        PreparseError { kind, idx }
    }
}

/// What an outline holds: the bytes of the text, the kinds of its syntax tokens, the byte
/// at which each of them starts, the errors and the definitions.
pub struct Outline {
    pub src: Seq<u8>,
    pub tokens: Seq<SyntaxKind>,
    pub start: Seq<usize>,
    pub errors: Seq<PreparseError>,
    pub definitions: Seq<Definition>,
}

impl Outline {
    /// The outline of `src` with no token yet.
    pub open spec fn empty(src: Seq<u8>) -> Outline {
        Outline {
            src,
            tokens: Seq::empty(),
            start: Seq::empty(),
            errors: Seq::empty(),
            definitions: Seq::empty(),
        }
    }

    /// The offsets are as many as the tokens, do not decrease, and are character
    /// boundaries of the text.
    pub open spec fn aligned(self) -> bool {
        &&& self.tokens.len() == self.start.len()
        &&& forall|i: int, j: int| 0 <= i <= j < self.start.len() ==> self.start[i] <= self.start[j]
        &&& forall|i: int|
            0 <= i < self.start.len() ==> vstd::utf8::is_char_boundary(
                self.src,
                #[trigger] self.start[i] as int,
            )
    }

    /// Every error stands behind an `Error` token, and every definition at a `Command`
    /// token.
    pub open spec fn indexed(self) -> bool {
        &&& forall|i: int|
            0 <= i < self.errors.len() ==> 0 < (#[trigger] self.errors[i]).idx <= self.tokens.len()
                && self.tokens[self.errors[i].idx - 1] == SyntaxKind::Error
        &&& forall|i: int|
            0 <= i < self.definitions.len() ==> (#[trigger] self.definitions[i]).idx
                < self.tokens.len() && self.tokens[self.definitions[i].idx as int]
                == SyntaxKind::Command
    }
}

/// The outline of a text. It holds a reference to the text, the syntax tokens and the
/// byte at which each of them starts, the errors, and the definitions.
#[derive(Debug)]
pub struct LexedStr<'source> {
    src: &'source str,
    tokens: Vec<SyntaxKind>,
    start: Vec<usize>,
    errors: Vec<PreparseError>,
    definitions: Vec<Definition>,
}

impl<'source> View for LexedStr<'source> {
    type V = Outline;

    closed spec fn view(&self) -> Outline {
        Outline {
            src: self.src.spec_bytes(),
            tokens: self.tokens@,
            start: self.start@,
            errors: self.errors@,
            definitions: self.definitions@,
        }
    }
}

/// The outline of the text `src`, whose tokens are `tokens`.
pub open spec fn outline(tokens: Seq<Token>, src: Seq<u8>) -> Outline {
    (Walk { tokens, idx: 0, position: 0, token_size: 0, out: Outline::empty(src) }).convert().out
}

impl<'source> LexedStr<'source> {
    /// The text that was read.
    pub closed spec fn source(&self) -> &'source str {
        self.src
    }

    /// Reads the outline of a text.
    pub fn new(input: &'source str) -> (l: LexedStr<'source>)
        ensures
            l.source() == input,
            l@ == outline(tokens_of(graphemes(input@)), input.spec_bytes()),
            l@.aligned(),
            l@.indexed(),
    {
        let buf = LexedStr {
            src: input,
            tokens: Vec::new(),
            start: Vec::new(),
            errors: Vec::new(),
            definitions: Vec::new(),
        };
        let token_iter = tokenize(input);
        // the length of the text is a machine word
        let _ = input.as_bytes().len();
        let conv = Converter::new(token_iter, buf);
        conv.convert()
    }

    /// The kinds of the syntax tokens.
    pub fn syntax_tokens(&self) -> (kinds: &Vec<SyntaxKind>)
        ensures
            kinds@ == self@.tokens,
    {
        &self.tokens
    }

    /// The definitions found in the text, in the order of their tokens.
    pub fn definitions(&self) -> (d: &Vec<Definition>)
        ensures
            d@ == self@.definitions,
    {
        &self.definitions
    }

    /// The errors found in the text, in the order of their tokens.
    pub fn errors(&self) -> (e: &Vec<PreparseError>)
        ensures
            e@ == self@.errors,
    {
        &self.errors
    }

    /// The index of the last syntax token. The outline must not be empty.
    pub fn len(&self) -> (n: usize)
        requires
            self@.tokens.len() > 0,
        ensures
            n == self@.tokens.len() - 1,
    {
        self.tokens.len() - 1
    }
}

/// The command names that the outline knows.
pub enum Keyword {
    Def,
    NewCommand,
    NewEnvironment,
    UsePackage,
    Input,
    Include,
    Mod,
    Fn,
    Use,
}

/// The keyword that `name` spells, if it spells one.
pub open spec fn keyword_of(name: Option<Seq<char>>) -> Option<Keyword> {
    if name == Some("\\def"@) {
        Some(Keyword::Def)
    } else if name == Some("\\newcommand"@) {
        Some(Keyword::NewCommand)
    } else if name == Some("\\newenvironment"@) {
        Some(Keyword::NewEnvironment)
    } else if name == Some("\\usepackage"@) {
        Some(Keyword::UsePackage)
    } else if name == Some("\\input"@) {
        Some(Keyword::Input)
    } else if name == Some("\\include"@) {
        Some(Keyword::Include)
    } else if name == Some("\\mod"@) {
        Some(Keyword::Mod)
    } else if name == Some("\\fn"@) {
        Some(Keyword::Fn)
    } else if name == Some("\\use"@) {
        Some(Keyword::Use)
    } else {
        None
    }
}

/// The keyword that `name` spells, if it spells one.
pub fn keyword(name: Option<&str>) -> (k: Option<Keyword>)
    ensures
        k == keyword_of(
            match name {
                Some(s) => Some(s@),
                None => None,
            },
        ),
{
    match name {
        None => None,
        Some(s) => {
            if same_text(s, "\\def") {
                Some(Keyword::Def)
            } else if same_text(s, "\\newcommand") {
                Some(Keyword::NewCommand)
            } else if same_text(s, "\\newenvironment") {
                Some(Keyword::NewEnvironment)
            } else if same_text(s, "\\usepackage") {
                Some(Keyword::UsePackage)
            } else if same_text(s, "\\input") {
                Some(Keyword::Input)
            } else if same_text(s, "\\include") {
                Some(Keyword::Include)
            } else if same_text(s, "\\mod") {
                Some(Keyword::Mod)
            } else if same_text(s, "\\fn") {
                Some(Keyword::Fn)
            } else if same_text(s, "\\use") {
                Some(Keyword::Use)
            } else {
                None
            }
        },
    }
}

/// Whether a token of the kind `token` becomes a syntax token by itself.
pub open spec fn is_basic(token: TokenKind) -> bool {
    token != TokenKind::CommandIdent && token != TokenKind::Newline && token != TokenKind::Dollar
        && token != TokenKind::Unknown && token != TokenKind::Eof
}

/// The syntax kind of a token that becomes a syntax token by itself.
pub open spec fn basic_kind(token: TokenKind) -> SyntaxKind {
    match token {
        TokenKind::Whitespace => SyntaxKind::Whitespace,
        TokenKind::Word => SyntaxKind::Word,
        TokenKind::AWord => SyntaxKind::AWord,
        TokenKind::Comment => SyntaxKind::Comment,
        TokenKind::AComment => SyntaxKind::AComment,
        TokenKind::Number => SyntaxKind::Number,
        TokenKind::OpenBrace => SyntaxKind::OpenBrace,
        TokenKind::CloseBrace => SyntaxKind::CloseBrace,
        TokenKind::OpenBracket => SyntaxKind::OpenBracket,
        TokenKind::CloseBracket => SyntaxKind::CloseBracket,
        TokenKind::OpenParen => SyntaxKind::OpenParen,
        TokenKind::CloseParen => SyntaxKind::CloseParen,
        TokenKind::Star => SyntaxKind::Star,
        TokenKind::NumSign => SyntaxKind::NumSign,
        TokenKind::Carret => SyntaxKind::Carret,
        TokenKind::Underscore => SyntaxKind::Underscore,
        TokenKind::Apostrophe => SyntaxKind::SingleApostrophe,
        TokenKind::DoubleApostrophe => SyntaxKind::DoubleApostrophe,
        TokenKind::Slash => SyntaxKind::Slash,
        TokenKind::Tilde => SyntaxKind::Tilde,
        TokenKind::Comma => SyntaxKind::Comma,
        TokenKind::Semicolon => SyntaxKind::Semicolon,
        TokenKind::Ampersand => SyntaxKind::Ampersand,
        TokenKind::Pipe => SyntaxKind::Pipe,
        TokenKind::Colon => SyntaxKind::Colon,
        TokenKind::Plus => SyntaxKind::Plus,
        TokenKind::Minus => SyntaxKind::Minus,
        TokenKind::Dot => SyntaxKind::Dot,
        TokenKind::Question => SyntaxKind::Question,
        TokenKind::At => SyntaxKind::At,
        TokenKind::Equal => SyntaxKind::Equal,
        TokenKind::Less => SyntaxKind::Less,
        TokenKind::Greater => SyntaxKind::Greater,
        TokenKind::Bang => SyntaxKind::Bang,
        _ => SyntaxKind::Error,
    }
}

/// What a converter holds: the tokens of the text, the number of them consumed, the bytes
/// consumed, the bytes consumed since the last syntax token was added, and the outline so
/// far.
pub struct Walk {
    pub tokens: Seq<Token>,
    pub idx: int,
    pub position: int,
    pub token_size: int,
    pub out: Outline,
}

impl Walk {
    /// The walk stands inside the tokens, the bytes consumed are those of the tokens
    /// consumed, and the outline is aligned and lies before the token under construction.
    pub open spec fn wf(self) -> bool {
        &&& 0 <= self.idx <= self.tokens.len()
        &&& clean(self.tokens)
        &&& total_len(self.tokens) <= usize::MAX
        &&& self.position == total_len(self.tokens.take(self.idx))
        &&& 0 <= self.token_size <= self.position
        &&& tokens_fit(self.tokens, self.out.src)
        &&& vstd::utf8::is_char_boundary(self.out.src, self.position - self.token_size)
        &&& self.out.aligned()
        &&& self.out.indexed()
        &&& self.out.tokens.len() <= usize::MAX
        &&& forall|i: int|
            0 <= i < self.out.start.len() ==> #[trigger] self.out.start[i] <= self.position
                - self.token_size
    }

    /// Whether `self` comes behind `before` in the same walk over the same text.
    pub open spec fn follows(self, before: Walk) -> bool {
        &&& self.tokens == before.tokens
        &&& self.out.src == before.out.src
        &&& before.idx <= self.idx
    }

    /// The kind of the next token, if there is one.
    pub open spec fn peek(self) -> Option<TokenKind> {
        if 0 <= self.idx < self.tokens.len() {
            Some(self.tokens[self.idx].kind)
        } else {
            None
        }
    }

    /// The kind of the token behind the next one, if there is one.
    pub open spec fn peek_second(self) -> Option<TokenKind> {
        if 0 <= self.idx + 1 < self.tokens.len() {
            Some(self.tokens[self.idx + 1].kind)
        } else {
            None
        }
    }

    /// The walk after the next token has been consumed; nothing moves behind the last
    /// token.
    pub open spec fn bump(self) -> Walk {
        if 0 <= self.idx < self.tokens.len() {
            Walk {
                idx: self.idx + 1,
                position: self.position + self.tokens[self.idx].len,
                token_size: self.token_size + self.tokens[self.idx].len,
                ..self
            }
        } else {
            self
        }
    }

    /// The byte at which the token under construction starts.
    pub open spec fn token_start(self) -> usize {
        (self.position - self.token_size) as usize
    }

    pub open spec fn add_token(self, kind: SyntaxKind) -> Walk {
        Walk {
            token_size: 0,
            out: Outline {
                tokens: self.out.tokens.push(kind),
                start: self.out.start.push(self.token_start()),
                ..self.out
            },
            ..self
        }
    }

    /// An `Error` token, and behind it the record of the error.
    pub open spec fn add_error_token(self, err: PreparseErrorKind) -> Walk {
        let added = self.add_token(SyntaxKind::Error);
        Walk {
            out: Outline {
                errors: added.out.errors.push(
                    PreparseError { kind: err, idx: added.out.tokens.len() as usize },
                ),
                ..added.out
            },
            ..added
        }
    }

    /// The next token is taken into an `Error` token.
    pub open spec fn eat_error(self, err: PreparseErrorKind) -> Walk {
        self.bump().add_error_token(err)
    }

    /// The record of a definition whose `Command` token is added next.
    pub open spec fn add_definition(self, kind: DefinitionKind) -> Walk {
        Walk {
            out: Outline {
                definitions: self.out.definitions.push(
                    Definition { kind, idx: self.out.tokens.len() as usize },
                ),
                ..self.out
            },
            ..self
        }
    }

    /// The text of the token under construction.
    pub open spec fn current_text(self) -> Option<Seq<char>> {
        text_between(self.out.src, self.position - self.token_size, self.position)
    }

    /// Closes the token under construction as the name of a command. The names that
    /// define something are recorded with their `Command` token; `\mod`, `\fn` and `\use`
    /// get a token of their own before it. Any other name is a `Command` where
    /// `is_command` says so, and may be a function as well where it does not.
    pub open spec fn add_command_token(self, is_command: bool) -> Walk {
        match keyword_of(self.current_text()) {
            Some(Keyword::Def) => self.add_definition(DefinitionKind::Def).add_token(
                SyntaxKind::Command,
            ),
            Some(Keyword::NewCommand) => self.add_definition(DefinitionKind::Command).add_token(
                SyntaxKind::Command,
            ),
            Some(Keyword::NewEnvironment) => self.add_definition(
                DefinitionKind::Environment,
            ).add_token(SyntaxKind::Command),
            Some(Keyword::UsePackage) => self.add_definition(DefinitionKind::Package).add_token(
                SyntaxKind::Command,
            ),
            Some(Keyword::Input) => self.add_definition(DefinitionKind::Input).add_token(
                SyntaxKind::Command,
            ),
            Some(Keyword::Include) => self.add_definition(DefinitionKind::Include).add_token(
                SyntaxKind::Command,
            ),
            Some(Keyword::Mod) => self.add_token(SyntaxKind::Module).add_token(SyntaxKind::Command),
            Some(Keyword::Fn) => self.add_token(SyntaxKind::FunctionIdent).add_token(
                SyntaxKind::Command,
            ),
            Some(Keyword::Use) => self.add_token(SyntaxKind::Use).add_token(SyntaxKind::Command),
            None => if is_command {
                self.add_token(SyntaxKind::Command)
            } else {
                self.add_token(SyntaxKind::CommandOrFunction)
            },
        }
    }

    /// Whether the token behind the next one lets the name of a command go on.
    pub open spec fn is_valid_in_command_char(self) -> bool {
        self.peek_second() matches Some(k) && (k == TokenKind::AWord || k == TokenKind::Number || k
            == TokenKind::Underscore || k == TokenKind::Colon)
    }

    /// Whether the token behind the next one lets the name of a variable go on.
    pub open spec fn is_valid_in_variable_char(self) -> bool {
        self.peek_second() matches Some(k) && (k == TokenKind::AWord || k == TokenKind::Number || k
            == TokenKind::Underscore)
    }

    /// Whether the next token goes on the name of a variable, a function or a part of a
    /// path.
    pub open spec fn in_identifier(self) -> bool {
        self.peek() matches Some(k) && (k == TokenKind::AWord || k == TokenKind::Number || (k
            == TokenKind::Underscore && self.is_valid_in_variable_char()))
    }

    /// The walk behind the tokens that go on an identifier.
    pub open spec fn identifier_run(self) -> Walk
        decreases self.tokens.len() - self.idx,
    {
        if self.in_identifier() {
            self.bump().identifier_run()
        } else {
            self
        }
    }

    /// The walk `self` with the token `token` added, if there is one to add.
    pub open spec fn add_if(self, token: Option<SyntaxKind>) -> Walk {
        match token {
            Some(kind) => self.add_token(kind),
            None => self,
        }
    }

    /// Reads the name of a variable, of a function or of a part of a path, and says
    /// whether it is one. A name begins with an ASCII word or with an underscore that
    /// something of a name follows; ASCII words, numbers and such underscores go on it.
    pub open spec fn match_identifier(
        self,
        token: Option<SyntaxKind>,
        missing: PreparseErrorKind,
        invalid: PreparseErrorKind,
    ) -> (Walk, bool) {
        match self.peek() {
            None => (self.add_error_token(missing), false),
            Some(k) => if k.trivia() {
                (self.add_error_token(missing), false)
            } else if k == TokenKind::AWord || (k == TokenKind::Underscore
                && self.is_valid_in_variable_char()) {
                (self.bump().identifier_run().add_if(token), true)
            } else {
                (self.eat_error(invalid), false)
            },
        }
    }

    /// The next token is the '@' of a variable.
    pub open spec fn variable(self) -> Walk {
        self.bump().match_identifier(
            Some(SyntaxKind::Variable),
            PreparseErrorKind::VariableNameMissing,
            PreparseErrorKind::InvalidVariableName,
        ).0
    }

    /// The name of a function stands next.
    pub open spec fn function(self) -> Walk {
        self.match_identifier(
            Some(SyntaxKind::Function),
            PreparseErrorKind::FunctionNameMissing,
            PreparseErrorKind::InvalidFunctionName,
        ).0
    }

    /// Reads the parts of a path, each behind a path separator, up to the function or the
    /// variable that the path leads to.
    pub open spec fn path_parts(self) -> Walk
        decreases self.tokens.len() - self.idx,
    {
        match self.peek() {
            None => self,
            Some(k) => if k == TokenKind::At {
                self.variable()
            } else {
                let begun = if k == TokenKind::AWord || (k == TokenKind::Underscore
                    && self.is_valid_in_variable_char()) {
                    self
                } else {
                    self.eat_error(PreparseErrorKind::InvalidPathSpecModuleName)
                };
                let (named, ok) = begun.match_identifier(
                    None,
                    PreparseErrorKind::PathSpecModuleNameMissing,
                    PreparseErrorKind::InvalidPathSpecModuleName,
                );
                if !ok {
                    named
                } else {
                    match named.peek() {
                        None => named.add_token(SyntaxKind::Function),
                        Some(t) => if t == TokenKind::Colon {
                            let behind = if named.peek_second() == Some(TokenKind::Colon) {
                                named.add_token(SyntaxKind::Namespace).bump().bump().add_token(
                                    SyntaxKind::PathSeperator,
                                )
                            } else {
                                named.eat_error(PreparseErrorKind::InvalidPathSpecSeperator)
                            };
                            if behind.tokens == self.tokens && self.idx < behind.idx
                                <= behind.tokens.len() {
                                behind.path_parts()
                            } else {
                                behind
                            }
                        } else {
                            named.add_token(SyntaxKind::Function)
                        },
                    }
                }
            },
        }
    }

    /// The next two tokens are the colons of a path separator right behind the backslash.
    pub open spec fn path_specifier(self) -> Walk {
        self.bump().bump().add_token(SyntaxKind::PathSeperator).path_parts()
    }

    /// The name of a command goes on from the next token. `plain` says whether the name
    /// may still be the name of a function.
    pub open spec fn command_rest(self, plain: bool) -> Walk
        decreases self.tokens.len() - self.idx,
    {
        match self.peek() {
            None => self.add_command_token(!plain),
            Some(k) => if k == TokenKind::AWord || k == TokenKind::Number || (k
                == TokenKind::Underscore && self.is_valid_in_command_char()) {
                self.bump().command_rest(plain)
            } else if k == TokenKind::Colon && self.is_valid_in_command_char() {
                self.bump().command_rest(false)
            } else if k == TokenKind::Colon {
                self.eat_error(PreparseErrorKind::InvalidCommandOrFunctionNameEnding)
            } else if k == TokenKind::Star {
                self.bump().add_command_token(!plain)
            } else {
                self.add_command_token(!plain)
            },
        }
    }

    /// A backslash has been consumed.
    pub open spec fn special_tokens(self) -> Walk {
        match self.peek() {
            None => self.add_error_token(PreparseErrorKind::CommandOrFunctionNameMissing),
            Some(k) => if k.trivia() {
                self.add_error_token(PreparseErrorKind::CommandOrFunctionNameMissing)
            } else if k == TokenKind::Word {
                self.eat_error(PreparseErrorKind::InvalidCommandOrFunctionName)
            } else if k == TokenKind::At {
                self.variable()
            } else if k == TokenKind::Colon && self.peek_second() == Some(TokenKind::Colon) {
                self.path_specifier()
            } else {
                let plain = k == TokenKind::AWord || k == TokenKind::Underscore;
                let begun = self.bump();
                if begun.peek() is None {
                    begun.add_command_token(!plain)
                } else if !plain {
                    begun.add_command_token(true).command_rest(plain)
                } else {
                    begun.command_rest(plain)
                }
            },
        }
    }

    /// The walk behind the newlines that follow.
    pub open spec fn newline_run(self) -> Walk
        decreases self.tokens.len() - self.idx,
    {
        if self.peek() == Some(TokenKind::Newline) {
            self.bump().newline_run()
        } else {
            self
        }
    }

    /// A newline has been consumed: it is a `Newline` by itself and a `Break` together
    /// with the newlines that follow it.
    pub open spec fn newline_or_break(self) -> Walk {
        if self.peek() == Some(TokenKind::Newline) {
            self.newline_run().add_token(SyntaxKind::Break)
        } else {
            self.add_token(SyntaxKind::Newline)
        }
    }

    /// The token of the kind `token` has been consumed. An operator of two characters is
    /// marked at its first character; its second character is a token of its own.
    pub open spec fn token(self, token: TokenKind) -> Walk {
        let peek = self.peek();
        if token == TokenKind::CommandIdent {
            self.special_tokens()
        } else if token == TokenKind::Newline {
            self.newline_or_break()
        } else if token == TokenKind::Less && peek == Some(TokenKind::Equal) {
            self.add_token(SyntaxKind::LessEq)
        } else if token == TokenKind::Less && peek == Some(TokenKind::Minus) {
            self.add_token(SyntaxKind::LeftArrow)
        } else if token == TokenKind::Greater && peek == Some(TokenKind::Equal) {
            self.add_token(SyntaxKind::GreaterEq)
        } else if token == TokenKind::Bang && peek == Some(TokenKind::Equal) {
            self.add_token(SyntaxKind::NotEq)
        } else if token == TokenKind::Minus && peek == Some(TokenKind::Greater) {
            self.add_token(SyntaxKind::RightArrow)
        } else if token == TokenKind::Dollar {
            self.add_token(SyntaxKind::MathDelimiter)
        } else {
            self.add_token(basic_kind(token))
        }
    }

    /// The walk at the end of the text, every token taken into syntax tokens.
    pub open spec fn convert(self) -> Walk
        decreases self.tokens.len() - self.idx,
    {
        match self.peek() {
            None => self,
            Some(k) => {
                let taken = self.bump().token(k);
                if taken.tokens == self.tokens && self.idx < taken.idx <= taken.tokens.len() {
                    taken.convert()
                } else {
                    taken
                }
            },
        }
    }

    /// One more step of the walk keeps it well-formed.
    pub proof fn lemma_bump(self)
        requires
            self.wf(),
        ensures
            self.bump().wf(),
            self.idx < self.tokens.len() ==> self.position + self.tokens[self.idx].len
                <= usize::MAX,
    {
        if self.idx < self.tokens.len() {
            let next = self.tokens.take(self.idx + 1);
            assert(next.drop_last() =~= self.tokens.take(self.idx));
            assert(next.last() == self.tokens[self.idx]);
            let rest = self.tokens.skip(self.idx + 1);
            assert(next + rest =~= self.tokens);
            lemma_total_len_concat(next, rest);
        }
    }
}

/// Turns the tokens of a text into its outline.
pub struct Converter<'source> {
    lexed: LexedStr<'source>,
    token_iter: DualPeekIterator<Token>,
    position: usize,
    token_size: usize,
}

impl<'source> View for Converter<'source> {
    type V = Walk;

    closed spec fn view(&self) -> Walk {
        Walk {
            tokens: self.token_iter.items(),
            idx: self.token_iter.consumed(),
            position: self.position as int,
            token_size: self.token_size as int,
            out: self.lexed@,
        }
    }
}

impl<'source> Converter<'source> {
    /// The text that is read.
    pub closed spec fn source(&self) -> &'source str {
        self.lexed.source()
    }

    /// The walk over the tokens stands inside them.
    pub closed spec fn walk_wf(&self) -> bool {
        self.token_iter.wf()
    }

    pub open spec fn wf(&self) -> bool {
        &&& self.walk_wf()
        &&& self@.wf()
    }

    /// A converter at the first of the tokens `iter`, which are the tokens of the text of
    /// `lexed`.
    pub fn new(iter: Vec<Token>, lexed: LexedStr<'source>) -> (c: Converter<'source>)
        requires
            clean(iter@),
            total_len(iter@) <= usize::MAX,
            tokens_fit(iter@, lexed@.src),
            lexed@ == Outline::empty(lexed@.src),
        ensures
            c.wf(),
            c@ == (Walk { tokens: iter@, idx: 0, position: 0, token_size: 0, out: lexed@ }),
            c.source() == lexed.source(),
    {
        let c = Converter { lexed, token_iter: iter.peek_two(), position: 0, token_size: 0 };
        assert(iter@.take(0) =~= Seq::<Token>::empty());
        c
    }

    /// Reads the outline and hands it out.
    pub fn convert(self) -> (l: LexedStr<'source>)
        requires
            self.wf(),
        ensures
            l@ == self@.convert().out,
            l.source() == self.source(),
            l@.aligned(),
            l@.indexed(),
    {
        let mut conv = self;
        loop
            invariant
                conv.wf(),
                conv@.follows(self@),
                conv@.convert() == self@.convert(),
                conv.source() == self.source(),
            ensures
                conv@ == self@.convert(),
            decreases conv@.tokens.len() - conv@.idx,
        {
            match conv.bump() {
                Some(token) => conv.token(token),
                None => {
                    break ;
                },
            }
        }
        conv.lexed
    }

    /// Takes the token of the kind `token`, which has been consumed, into the outline.
    fn token(&mut self, token: TokenKind)
        requires
            old(self).wf(),
            token != TokenKind::Unknown,
            token != TokenKind::Eof,
        ensures
            final(self).wf(),
            final(self)@ == old(self)@.token(token),
            final(self)@.follows(old(self)@),
            final(self).source() == old(self).source(),
    {
        if token == TokenKind::CommandIdent {
            self.special_tokens()
        } else if token == TokenKind::Newline {
            self.newline_or_break()
        } else if token == TokenKind::Less && self.is_peek_eq() {
            self.add_token(SyntaxKind::LessEq)
        } else if token == TokenKind::Less && self.is_peek_minus() {
            self.add_token(SyntaxKind::LeftArrow)
        } else if token == TokenKind::Greater && self.is_peek_eq() {
            self.add_token(SyntaxKind::GreaterEq)
        } else if token == TokenKind::Bang && self.is_peek_eq() {
            self.add_token(SyntaxKind::NotEq)
        } else if token == TokenKind::Minus && self.is_peek_greater() {
            self.add_token(SyntaxKind::RightArrow)
        } else if token == TokenKind::Dollar {
            self.add_token(SyntaxKind::MathDelimiter)
        } else {
            let syntax_kind = self.basic_token_kind(token);
            self.add_token(syntax_kind)
        }
    }

    /// The kind of the next token.
    fn peek(&self) -> (k: Option<TokenKind>)
        requires
            self.wf(),
        ensures
            k == self@.peek(),
    {
        proof {
            self.token_iter.lemma_view();
        }
        match self.token_iter.peek_first() {
            Some(it) => Some(it.kind),
            None => None,
        }
    }

    /// The kind of the token behind the next one.
    fn peek_second(&self) -> (k: Option<TokenKind>)
        requires
            self.wf(),
        ensures
            k == self@.peek_second(),
    {
        proof {
            self.token_iter.lemma_view();
        }
        match self.token_iter.peek_second() {
            Some(it) => Some(it.kind),
            None => None,
        }
    }

    /// Consumes the next token.
    fn bump(&mut self) -> (k: Option<TokenKind>)
        requires
            old(self).wf(),
        ensures
            final(self).wf(),
            final(self)@ == old(self)@.bump(),
            final(self)@.follows(old(self)@),
            k == old(self)@.peek(),
            k is Some ==> final(self)@.idx == old(self)@.idx + 1,
            k matches Some(kind) ==> kind != TokenKind::Unknown && kind != TokenKind::Eof,
            final(self).source() == old(self).source(),
    {
        proof {
            self.token_iter.lemma_view();
            self@.lemma_bump();
        }
        match self.token_iter.next() {
            Some(token) => {
                self.position += token.len;
                self.token_size += token.len;
                Some(token.kind)
            },
            None => None,
        }
    }

    /// Adds a syntax token that takes in what has been consumed since the last one.
    fn add_token(&mut self, syntax_kind: SyntaxKind)
        requires
            old(self).wf(),
        ensures
            final(self).wf(),
            final(self)@ == old(self)@.add_token(syntax_kind),
            final(self)@.follows(old(self)@),
            final(self).source() == old(self).source(),
    {
        self.lexed.tokens.push(syntax_kind);
        self.lexed.start.push(self.position - self.token_size);
        // the number of tokens is a machine word
        let _ = self.lexed.tokens.len();
        self.reset_token_size();
    }

    fn reset_token_size(&mut self)
        ensures
            final(self)@ == (Walk { token_size: 0, ..old(self)@ }),
            final(self).source() == old(self).source(),
            final(self).walk_wf() == old(self).walk_wf(),
    {
        self.token_size = 0
    }

    /// Adds an `Error` token and the record of the error.
    fn add_error_token(&mut self, err: PreparseErrorKind)
        requires
            old(self).wf(),
        ensures
            final(self).wf(),
            final(self)@ == old(self)@.add_error_token(err),
            final(self)@.follows(old(self)@),
            final(self).source() == old(self).source(),
    {
        self.add_token(SyntaxKind::Error);
        let idx = self.lexed.tokens.len();
        let err = PreparseError::new(err, idx);
        self.lexed.errors.push(err);
    }

    /// Takes the next token into an `Error` token.
    fn eat_error(&mut self, err: PreparseErrorKind)
        requires
            old(self).wf(),
        ensures
            final(self).wf(),
            final(self)@ == old(self)@.eat_error(err),
            final(self)@.follows(old(self)@),
            final(self).source() == old(self).source(),
    {
        self.bump();
        self.add_error_token(err);
    }

    /// Closes the token under construction as the name of a command.
    fn add_command_token(&mut self, is_command: bool)
        requires
            old(self).wf(),
        ensures
            final(self).wf(),
            final(self)@ == old(self)@.add_command_token(is_command),
            final(self)@.follows(old(self)@),
            final(self).source() == old(self).source(),
    {
        let begin = self.position - self.token_size;
        let end = self.position;
        let command_name = slice(self.lexed.src, begin, end);
        match keyword(command_name) {
            Some(Keyword::Def) => self.add_definition(DefinitionKind::Def),
            Some(Keyword::NewCommand) => self.add_definition(DefinitionKind::Command),
            Some(Keyword::NewEnvironment) => self.add_definition(DefinitionKind::Environment),
            Some(Keyword::UsePackage) => self.add_definition(DefinitionKind::Package),
            Some(Keyword::Input) => self.add_definition(DefinitionKind::Input),
            Some(Keyword::Include) => self.add_definition(DefinitionKind::Include),
            Some(Keyword::Mod) => {
                self.add_token(SyntaxKind::Module);
                self.add_token(SyntaxKind::Command)
            },
            Some(Keyword::Fn) => {
                self.add_token(SyntaxKind::FunctionIdent);
                self.add_token(SyntaxKind::Command)
            },
            Some(Keyword::Use) => {
                self.add_token(SyntaxKind::Use);
                self.add_token(SyntaxKind::Command)
            },
            None => {
                if is_command {
                    self.add_token(SyntaxKind::Command);
                } else {
                    self.add_token(SyntaxKind::CommandOrFunction)
                }
            },
        }
    }

    /// A backslash has been consumed: reads what it begins.
    #[verifier::loop_isolation(false)]
    fn special_tokens(&mut self)
        requires
            old(self).wf(),
        ensures
            final(self).wf(),
            final(self)@ == old(self)@.special_tokens(),
            final(self)@.follows(old(self)@),
            final(self).source() == old(self).source(),
    {
        let token = match self.peek() {
            Some(token) => token,
            None => {
                return self.add_error_token(PreparseErrorKind::CommandOrFunctionNameMissing);
            },
        };
        // whether the name can still be the name of a function
        let mut is_valid_function_name = false;
        if token.is_trivia() {
            return self.add_error_token(PreparseErrorKind::CommandOrFunctionNameMissing);
        } else if token == TokenKind::Word {
            return self.eat_error(PreparseErrorKind::InvalidCommandOrFunctionName);
        } else if token == TokenKind::AWord || token == TokenKind::Underscore {
            is_valid_function_name = true;
        } else if token == TokenKind::At {
            return self.variable();
        } else if token == TokenKind::Colon && self.peek_second() == Some(TokenKind::Colon) {
            return self.path_specifier();
        }
        self.bump();
        // look at the second token of the name
        if self.peek().is_none() {
            return self.add_command_token(!is_valid_function_name);
        }
        if !is_valid_function_name {
            self.add_command_token(true)
        }
        let ghost begun = self@;
        let ghost plain = is_valid_function_name;
        loop
            invariant
                self.wf(),
                self@.follows(old(self)@),
                self@.command_rest(is_valid_function_name) == begun.command_rest(plain),
                self.source() == old(self).source(),
            decreases self@.tokens.len() - self@.idx,
        {
            let token = match self.peek() {
                Some(token) => token,
                None => {
                    break ;
                },
            };
            if token == TokenKind::AWord || token == TokenKind::Number {
            } else if token == TokenKind::Underscore && self.is_valid_in_command_char() {
            } else if token == TokenKind::Colon && self.is_valid_in_command_char() {
                is_valid_function_name = false
            } else if token == TokenKind::Colon {
                return self.eat_error(PreparseErrorKind::InvalidCommandOrFunctionNameEnding);
            } else if token == TokenKind::Star {
                self.bump();
                return self.add_command_token(!is_valid_function_name);
            } else {
                break ;
            }
            self.bump();
        }
        self.add_command_token(!is_valid_function_name);
    }

    /// Reads a variable: a backslash and an '@', and behind them ASCII words, numbers and
    /// underscores. The next token has to be the '@'.
    fn variable(&mut self)
        requires
            old(self).wf(),
            old(self)@.peek() == Some(TokenKind::At),
        ensures
            final(self).wf(),
            final(self)@ == old(self)@.variable(),
            final(self)@.follows(old(self)@),
            old(self)@.idx < final(self)@.idx,
            final(self).source() == old(self).source(),
    {
        // the '@'
        self.bump();
        self.match_identifier(
            Some(SyntaxKind::Variable),
            PreparseErrorKind::VariableNameMissing,
            PreparseErrorKind::InvalidVariableName,
        );
    }

    /// Reads the name of a function.
    pub fn function(&mut self)
        requires
            old(self).wf(),
        ensures
            final(self).wf(),
            final(self)@ == old(self)@.function(),
            final(self)@.follows(old(self)@),
            final(self).source() == old(self).source(),
    {
        self.match_identifier(
            Some(SyntaxKind::Function),
            PreparseErrorKind::FunctionNameMissing,
            PreparseErrorKind::InvalidFunctionName,
        );
    }

    /// Reads the name of a variable, of a function or of a part of a path. Only numbers,
    /// ASCII words and underscores make up a name; it begins with an ASCII word or an
    /// underscore and does not end with an underscore. With no `syntax_token` only errors
    /// are recorded. The result says whether a name was read.
    fn match_identifier(
        &mut self,
        syntax_token: Option<SyntaxKind>,
        missing_type: PreparseErrorKind,
        invalid_type: PreparseErrorKind,
    ) -> (ok: bool)
        requires
            old(self).wf(),
        ensures
            final(self).wf(),
            (final(self)@, ok) == old(self)@.match_identifier(
                syntax_token,
                missing_type,
                invalid_type,
            ),
            final(self)@.follows(old(self)@),
            ok ==> old(self)@.idx < final(self)@.idx,
            final(self).source() == old(self).source(),
    {
        let token = match self.peek() {
            Some(token) => token,
            None => {
                self.add_error_token(missing_type);
                return false;
            },
        };
        if token.is_trivia() {
            self.add_error_token(missing_type);
            return false;
        } else if token == TokenKind::AWord {
        } else if token == TokenKind::Underscore && self.is_valid_in_variable_char() {
        } else {
            self.eat_error(invalid_type);
            return false;
        }
        self.bump();
        let ghost begun = self@;
        while self.in_identifier()
            invariant
                self.wf(),
                self@.follows(old(self)@),
                old(self)@.idx < self@.idx,
                self@.identifier_run() == begun.identifier_run(),
                self.source() == old(self).source(),
            decreases self@.tokens.len() - self@.idx,
        {
            self.bump();
        }
        match syntax_token {
            Some(kind) => self.add_token(kind),
            None => {},
        }
        true
    }

    /// Whether the next token goes on an identifier.
    fn in_identifier(&self) -> (b: bool)
        requires
            self.wf(),
        ensures
            b == self@.in_identifier(),
            b ==> self@.idx < self@.tokens.len(),
    {
        match self.peek() {
            Some(k) => k == TokenKind::AWord || k == TokenKind::Number || (k
                == TokenKind::Underscore && self.is_valid_in_variable_char()),
            None => false,
        }
    }

    /// Reads a variable or a function with a path in front, such as
    /// `\::module::second_module::@variable_x`. The next two tokens have to be colons.
    #[verifier::loop_isolation(false)]
    fn path_specifier(&mut self)
        requires
            old(self).wf(),
            old(self)@.peek() == Some(TokenKind::Colon),
            old(self)@.peek_second() == Some(TokenKind::Colon),
        ensures
            final(self).wf(),
            final(self)@ == old(self)@.path_specifier(),
            final(self)@.follows(old(self)@),
            final(self).source() == old(self).source(),
    {
        self.bump();
        self.bump();
        self.add_token(SyntaxKind::PathSeperator);
        let ghost begun = self@;
        loop
            invariant
                self.wf(),
                self@.follows(old(self)@),
                self@.path_parts() == begun.path_parts(),
                self.source() == old(self).source(),
            decreases self@.tokens.len() - self@.idx,
        {
            let token = match self.peek() {
                Some(token) => token,
                None => {
                    return ;
                },
            };
            if token == TokenKind::At {
                return self.variable();
            } else if token == TokenKind::AWord {
            } else if token == TokenKind::Underscore && self.is_valid_in_variable_char() {
            } else {
                self.eat_error(PreparseErrorKind::InvalidPathSpecModuleName)
            }
            let is_valid_path_name = self.match_identifier(
                None,
                PreparseErrorKind::PathSpecModuleNameMissing,
                PreparseErrorKind::InvalidPathSpecModuleName,
            );
            if !is_valid_path_name {
                return ;
            }
            let token = match self.peek() {
                Some(token) => token,
                None => {
                    return self.add_token(SyntaxKind::Function);
                },
            };
            if token == TokenKind::Colon && self.peek_second() == Some(TokenKind::Colon) {
                self.add_token(SyntaxKind::Namespace);
                self.bump();
                self.bump();
                self.add_token(SyntaxKind::PathSeperator);
            } else if token == TokenKind::Colon {
                self.eat_error(PreparseErrorKind::InvalidPathSpecSeperator)
            } else {
                return self.add_token(SyntaxKind::Function);
            }
        }
    }

    /// Whether the token behind the next one lets the name of a command go on.
    fn is_valid_in_command_char(&self) -> (b: bool)
        requires
            self.wf(),
        ensures
            b == self@.is_valid_in_command_char(),
    {
        match self.peek_second() {
            Some(token) => token == TokenKind::AWord || token == TokenKind::Number || token
                == TokenKind::Underscore || token == TokenKind::Colon,
            None => false,
        }
    }

    /// Whether the token behind the next one lets the name of a variable go on.
    fn is_valid_in_variable_char(&self) -> (b: bool)
        requires
            self.wf(),
        ensures
            b == self@.is_valid_in_variable_char(),
    {
        match self.peek_second() {
            Some(token) => token == TokenKind::AWord || token == TokenKind::Number || token
                == TokenKind::Underscore,
            None => false,
        }
    }

    /// Adds the `Command` token of a definition and records the definition at it.
    fn add_definition(&mut self, kind: DefinitionKind)
        requires
            old(self).wf(),
        ensures
            final(self).wf(),
            final(self)@ == old(self)@.add_definition(kind).add_token(SyntaxKind::Command),
            final(self)@.follows(old(self)@),
            final(self).source() == old(self).source(),
    {
        self.add_token(SyntaxKind::Command);
        let idx = self.lexed.tokens.len() - 1;
        let def = Definition::new(kind, idx);
        self.lexed.definitions.push(def);
    }

    /// A newline has been consumed: reads the newlines that follow it.
    fn newline_or_break(&mut self)
        requires
            old(self).wf(),
        ensures
            final(self).wf(),
            final(self)@ == old(self)@.newline_or_break(),
            final(self)@.follows(old(self)@),
            final(self).source() == old(self).source(),
    {
        let token: SyntaxKind;
        if self.is_peek_newline() {
            while self.is_peek_newline()
                invariant
                    self.wf(),
                    self@.follows(old(self)@),
                    self@.newline_run() == old(self)@.newline_run(),
                    self.source() == old(self).source(),
                decreases self@.tokens.len() - self@.idx,
            {
                self.bump();
            }
            token = SyntaxKind::Break;
        } else {
            token = SyntaxKind::Newline;
        }
        self.add_token(token);
    }

    /// The syntax kind of a token that becomes a syntax token by itself.
    fn basic_token_kind(&self, token: TokenKind) -> (kind: SyntaxKind)
        requires
            is_basic(token),
        ensures
            kind == basic_kind(token),
    {
        match token {
            TokenKind::Whitespace => SyntaxKind::Whitespace,
            TokenKind::Word => SyntaxKind::Word,
            TokenKind::AWord => SyntaxKind::AWord,
            TokenKind::Comment => SyntaxKind::Comment,
            TokenKind::AComment => SyntaxKind::AComment,
            TokenKind::Number => SyntaxKind::Number,
            TokenKind::OpenBrace => SyntaxKind::OpenBrace,
            TokenKind::CloseBrace => SyntaxKind::CloseBrace,
            TokenKind::OpenBracket => SyntaxKind::OpenBracket,
            TokenKind::CloseBracket => SyntaxKind::CloseBracket,
            TokenKind::OpenParen => SyntaxKind::OpenParen,
            TokenKind::CloseParen => SyntaxKind::CloseParen,
            TokenKind::Star => SyntaxKind::Star,
            TokenKind::NumSign => SyntaxKind::NumSign,
            TokenKind::Carret => SyntaxKind::Carret,
            TokenKind::Underscore => SyntaxKind::Underscore,
            TokenKind::Apostrophe => SyntaxKind::SingleApostrophe,
            TokenKind::DoubleApostrophe => SyntaxKind::DoubleApostrophe,
            TokenKind::Slash => SyntaxKind::Slash,
            TokenKind::Tilde => SyntaxKind::Tilde,
            TokenKind::Comma => SyntaxKind::Comma,
            TokenKind::Semicolon => SyntaxKind::Semicolon,
            TokenKind::Ampersand => SyntaxKind::Ampersand,
            TokenKind::Pipe => SyntaxKind::Pipe,
            TokenKind::Colon => SyntaxKind::Colon,
            TokenKind::Plus => SyntaxKind::Plus,
            TokenKind::Minus => SyntaxKind::Minus,
            TokenKind::Dot => SyntaxKind::Dot,
            TokenKind::Question => SyntaxKind::Question,
            TokenKind::At => SyntaxKind::At,
            TokenKind::Equal => SyntaxKind::Equal,
            TokenKind::Less => SyntaxKind::Less,
            TokenKind::Greater => SyntaxKind::Greater,
            TokenKind::Bang => SyntaxKind::Bang,
            _ => SyntaxKind::Error,
        }
    }

    /// Whether the next token is a '>'.
    fn is_peek_greater(&self) -> (b: bool)
        requires
            self.wf(),
        ensures
            b == (self@.peek() == Some(TokenKind::Greater)),
    {
        match self.peek() {
            Some(t) => t == TokenKind::Greater,
            None => false,
        }
    }

    /// Whether the next token is a '-'.
    fn is_peek_minus(&self) -> (b: bool)
        requires
            self.wf(),
        ensures
            b == (self@.peek() == Some(TokenKind::Minus)),
    {
        match self.peek() {
            Some(t) => t == TokenKind::Minus,
            None => false,
        }
    }

    /// Whether the next token is a '='.
    fn is_peek_eq(&self) -> (b: bool)
        requires
            self.wf(),
        ensures
            b == (self@.peek() == Some(TokenKind::Equal)),
    {
        match self.peek() {
            Some(t) => t == TokenKind::Equal,
            None => false,
        }
    }

    /// Whether the next token is a newline.
    fn is_peek_newline(&self) -> (b: bool)
        requires
            self.wf(),
        ensures
            b == (self@.peek() == Some(TokenKind::Newline)),
            b ==> self@.idx < self@.tokens.len(),
    {
        match self.peek() {
            Some(t) => t == TokenKind::Newline,
            None => false,
        }
    }
}

} // verus!
