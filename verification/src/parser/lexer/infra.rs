//! The vocabulary of the tokenizer's state machine and the driver that runs it over a text.

use super::definition::{
    is_newline_char, is_whitespace, top, transition, FromSeperator, LexerState,
};
use super::tables::{composite_symbol, is_unit, lemma_composite_symbol_ascii, lemma_unit_ascii};
use super::token::{LexToken, Tombstone};
use crate::span::{CurrentFile, Span, Spanned};
use crate::unicode::{alphabetic, is_ascii_alphabetic, is_digit};
use crate::text::{
    char_at, char_width, first_char, lemma_char_step, lemma_str_bytes, lemma_tail_at_end,
    lemma_str_head, lemma_tail_view, lemma_two_ascii_step, len_utf8, rest_at, tail_chars, tail_from, utf8_len,
};
use vstd::prelude::*;
use vstd::string::*;
use vstd::utf8::*;

verus! {

/// What the state machine does with the characters under the cursor.
#[derive(Debug, Copy, Clone, PartialEq, Eq, Structural)]
pub enum LexerAction {
    /// Adds this many bytes to the current token.
    Consume(usize),
    /// Looks at the same character again.
    Reconsume,
    /// Gives this many bytes of the current token back to the input.
    Reset(usize),
}

/// What happens to the characters accumulated for the current token.
#[derive(Debug, Copy, Clone, PartialEq, Eq, Structural)]
pub enum LexerAccumulate {
    /// Start a new token. There should be no accumulated characters yet.
    Begin,
    /// Don't emit anything, but continue to accumulate characters in the current token.
    Continue(LexerAction),
    /// Start a new token after possibly consuming some characters. Those characters are
    /// ignored, and are not part of any token.
    Skip(LexerAction),
    /// Emit a token after accumulating some characters into it.
    Emit { before: Option<LexerAction>, token: LexToken },
}

/// One transition of the state machine.
#[derive(Debug, Copy, Clone, PartialEq, Eq, Structural)]
pub enum LexerNext {
    /// The input is exhausted.
    EOF,
    /// Stay in the current state.
    Remain(LexerAccumulate),
    /// Move to another state.
    Transition(LexerAccumulate, LexerState),
}

impl LexerNext {
    #[verifier::allow_in_spec]
    pub fn begin(state: LexerState) -> LexerNext
        returns
            LexerNext::Transition(LexerAccumulate::Begin, state),
    {
        LexerNext::Transition(LexerAccumulate::Begin, state)
    }
}

impl LexerAccumulate {
    #[verifier::allow_in_spec]
    pub fn and_transition(self, state: LexerState) -> LexerNext
        returns
            LexerNext::Transition(self, state),
    {
        LexerNext::Transition(self, state)
    }
}

impl LexerAction {
    #[verifier::allow_in_spec]
    pub fn and_remain(self) -> LexerNext
        returns
            LexerNext::Remain(LexerAccumulate::Continue(self)),
    {
        LexerNext::Remain(LexerAccumulate::Continue(self))
    }

    #[verifier::allow_in_spec]
    pub fn and_transition(self, state: LexerState) -> LexerNext
        returns
            LexerNext::Transition(LexerAccumulate::Continue(self), state),
    {
        LexerNext::Transition(LexerAccumulate::Continue(self), state)
    }

    #[verifier::allow_in_spec]
    pub fn and_emit(self, token: LexToken) -> LexerAccumulate
        returns
            (LexerAccumulate::Emit { before: Some(self), token }),
    {
        LexerAccumulate::Emit { before: Some(self), token }
    }

    #[verifier::allow_in_spec]
    pub fn and_discard(self) -> LexerAccumulate
        returns
            LexerAccumulate::Skip(self),
    {
        LexerAccumulate::Skip(self)
    }
}

/// Consumes the character `c`.
#[verifier::allow_in_spec]
pub fn consume(c: char) -> LexerAction
    returns
        LexerAction::Consume(char_width(c) as usize),
{
    LexerAction::Consume(len_utf8(c))
}

/// Consumes as many bytes as `s` has.
pub fn consume_str(s: &str) -> (a: LexerAction)
    ensures
        a == LexerAction::Consume(utf8_len(s@) as usize),
{
    LexerAction::Consume(s.len())
}

#[verifier::allow_in_spec]
pub fn reconsume() -> LexerAction
    returns
        LexerAction::Reconsume,
{
    LexerAction::Reconsume
}

#[verifier::allow_in_spec]
pub fn reset(len: usize) -> LexerAction
    returns
        LexerAction::Reset(len),
{
    LexerAction::Reset(len)
}

/// A value that can be given the span it was read from.
pub trait Attachable: Sized {
    fn attach_span(self, start: usize, len: usize) -> (r: Spanned<Self, CurrentFile>)
        ensures
            r.value == self,
            r.span.start() == start,
            r.span.spec_len() == len,
    ;
}

impl Attachable for LexToken {
    fn attach_span(self, start: usize, len: usize) -> (r: Spanned<LexToken, CurrentFile>) {
        Spanned { value: self, span: Span::new(CurrentFile::new(), start, len) }
    }
}

/// The tokenizer's place in a text: its state, the byte at which the current token starts
/// and the number of bytes accumulated for it.
pub struct Scan {
    pub state: LexerState,
    pub start: int,
    pub token_len: int,
}

/// What one transition, or a run of them, leads to.
pub enum Outcome {
    /// No token yet.
    Continue(Scan),
    /// The token `token` of `len` bytes from byte `start` on; the tokenizer goes on from
    /// `after`.
    Return { token: LexToken, start: int, len: int, after: Scan },
}

impl Scan {
    /// The byte under the cursor.
    pub open spec fn pos(self) -> int {
        self.start + self.token_len
    }

    pub open spec fn with_state(self, state: LexerState) -> Scan {
        Scan { state, ..self }
    }
}

impl Outcome {
    pub open spec fn with_state(self, state: LexerState) -> Outcome {
        match self {
            Outcome::Continue(s) => Outcome::Continue(s.with_state(state)),
            Outcome::Return { token, start, len, after } => Outcome::Return {
                token,
                start,
                len,
                after: after.with_state(state),
            },
        }
    }
}

/// The length of the current token after `action`.
pub open spec fn action_len(action: LexerAction, token_len: int) -> int {
    match action {
        LexerAction::Consume(n) => token_len + n,
        LexerAction::Reconsume => token_len,
        LexerAction::Reset(n) => token_len - n,
    }
}

/// The effect of `accum` on the place `s`.
pub open spec fn accumulate_outcome(accum: LexerAccumulate, s: Scan) -> Outcome {
    match accum {
        LexerAccumulate::Begin => Outcome::Continue(s),
        LexerAccumulate::Continue(action) => Outcome::Continue(
            Scan { token_len: action_len(action, s.token_len), ..s },
        ),
        LexerAccumulate::Skip(action) => Outcome::Continue(
            Scan { start: s.start + action_len(action, s.token_len), token_len: 0, ..s },
        ),
        LexerAccumulate::Emit { before, token } => {
            let len = match before {
                Some(action) => action_len(action, s.token_len),
                None => s.token_len,
            };
            Outcome::Return {
                token,
                start: s.start,
                len,
                after: Scan { start: s.start + len, token_len: 0, ..s },
            }
        },
    }
}

/// The effect of the transition `next` on the place `s`.
pub open spec fn step_outcome(next: LexerNext, s: Scan) -> Outcome {
    match next {
        LexerNext::EOF => Outcome::Return { token: LexToken::Eof, start: s.start, len: 0, after: s },
        LexerNext::Remain(accum) => accumulate_outcome(accum, s),
        LexerNext::Transition(accum, state) => accumulate_outcome(accum, s).with_state(state),
    }
}

/// Whether `action` leaves the cursor inside the first `limit` bytes and the token's length
/// at zero or above.
pub open spec fn action_fits(action: LexerAction, s: Scan, limit: int) -> bool {
    match action {
        LexerAction::Consume(n) => s.pos() + n <= limit,
        LexerAction::Reconsume => true,
        LexerAction::Reset(n) => n <= s.token_len,
    }
}

pub open spec fn accumulate_fits(accum: LexerAccumulate, s: Scan, limit: int) -> bool {
    &&& s.pos() <= limit
    &&& match accum {
        LexerAccumulate::Begin => s.token_len == 0,
        LexerAccumulate::Continue(action) => action_fits(action, s, limit),
        LexerAccumulate::Skip(action) => action_fits(action, s, limit),
        LexerAccumulate::Emit { before, token } => match before {
            Some(action) => action_fits(action, s, limit),
            None => true,
        },
    }
}

pub open spec fn step_fits(next: LexerNext, s: Scan, limit: int) -> bool {
    match next {
        LexerNext::EOF => true,
        LexerNext::Remain(accum) => accumulate_fits(accum, s, limit),
        LexerNext::Transition(accum, _) => accumulate_fits(accum, s, limit),
    }
}

/// The states that are only entered with no character accumulated.
pub open spec fn is_fresh(state: LexerState) -> bool {
    match state {
        LexerState::Top { .. } => true,
        LexerState::Unit => true,
        LexerState::Word => true,
        LexerState::Symbol => true,
        LexerState::CommandNameBegin => true,
        LexerState::CommandNameContinueBegin => true,
        LexerState::VariableName => true,
        LexerState::VariableNameStart => true,
        _ => false,
    }
}

/// Whether the place `s` is consistent with the text `bytes`: the token's start and the
/// cursor are character boundaries of it, and the state's own count agrees with them.
pub open spec fn scan_wf(s: Scan, bytes: Seq<u8>) -> bool {
    &&& valid_utf8(bytes)
    &&& bytes.len() <= usize::MAX
    &&& 0 <= s.start
    &&& 0 <= s.token_len
    &&& s.pos() <= bytes.len()
    &&& is_char_boundary(bytes, s.start)
    &&& is_char_boundary(bytes, s.pos())
    &&& (is_fresh(s.state) ==> s.token_len == 0)
    &&& (s.state matches LexerState::Whitespace { len, .. } ==> len <= s.token_len
        && is_char_boundary(bytes, s.pos() - len))
}

/// Bounds the number of transitions that `state` can make on the character `c` without
/// consuming it.
pub open spec fn rank(state: LexerState, c: Option<char>) -> int {
    match c {
        None => match state {
            LexerState::Top { .. } => 0,
            _ => 1,
        },
        Some(ch) => match state {
            LexerState::CommandNameBegin => 9,
            LexerState::CommandNameContinueBegin => 9,
            LexerState::VariableName => 9,
            LexerState::VariableNameStart => 9,
            LexerState::Top { unit } => if unit {
                8
            } else {
                5
            },
            LexerState::Unit => 7,
            LexerState::Word => if alphabetic(ch) || is_ascii_alphabetic(ch) {
                1
            } else {
                6
            },
            LexerState::UnicodeEscape => 4,
            LexerState::Newline { .. } => 4,
            LexerState::Break => if is_whitespace(ch) {
                1
            } else {
                0
            },
            LexerState::Whitespace { .. } => if is_newline_char(ch) {
                1
            } else {
                0
            },
            _ => 0,
        },
    }
}

/// What is left to do at the place `s`: the bytes behind the cursor count first, then the
/// rank of the state.
pub open spec fn measure(s: Scan, bytes: Seq<u8>) -> int {
    (bytes.len() - s.pos()) * 10 + rank(s.state, char_at(bytes, s.pos()))
}

/// The transition that the state machine makes at the place `s` of the text `bytes`.
pub open spec fn next_at(s: Scan, bytes: Seq<u8>) -> LexerNext {
    transition(s.state, char_at(bytes, s.pos()), rest_at(bytes, s.pos()))
}

/// Whether the cursor can move `n` bytes on from `pos` and land on a character boundary.
pub open spec fn lands(bytes: Seq<u8>, pos: int, n: int) -> bool {
    pos + n <= bytes.len() && is_char_boundary(bytes, pos + n)
}

/// Where the cursor can go from a character boundary: past the character under it, and
/// past that and the next one where both are ASCII.
pub proof fn lemma_moves(bytes: Seq<u8>, pos: int)
    requires
        valid_utf8(bytes),
        is_char_boundary(bytes, pos),
        0 <= pos <= bytes.len(),
    ensures
        char_at(bytes, pos) is None <==> pos == bytes.len(),
        char_at(bytes, pos) matches Some(c) ==> lands(bytes, pos, char_width(c) as int) && 1
            <= char_width(c) <= 4,
        char_at(bytes, pos) matches Some(c) ==> (rest_at(bytes, pos).len() > 0 && (c as u32)
            < 0x80 && (rest_at(bytes, pos)[0] as u32) < 0x80 ==> lands(bytes, pos, 2)),
{
    if pos < bytes.len() {
        lemma_char_step(bytes, pos);
        let c = char_at(bytes, pos)->0;
        let rest = rest_at(bytes, pos);
        if rest.len() > 0 && (c as u32) < 0x80 && (rest[0] as u32) < 0x80 {
            lemma_two_ascii_step(bytes, pos);
        }
    } else {
        lemma_tail_at_end(bytes);
    }
}

/// What holds of the transition at a consistent place: it fits the text, and it either
/// returns a token that starts where the place's token started, or leads to a consistent
/// place with less left to do.
pub open spec fn step_sound(s: Scan, bytes: Seq<u8>) -> bool {
    &&& step_fits(next_at(s, bytes), s, bytes.len() as int)
    &&& s.state.has_room(char_at(bytes, s.pos()))
    &&& match step_outcome(next_at(s, bytes), s) {
        Outcome::Continue(s2) => {
            &&& scan_wf(s2, bytes)
            &&& s2.start == s.start
            &&& 0 <= measure(s2, bytes) < measure(s, bytes)
        },
        Outcome::Return { token, start, len, after } => {
            &&& scan_wf(after, bytes)
            &&& start == s.start
            &&& 0 <= len
            &&& after.start == start + len
            &&& after.token_len == 0
            &&& (token == LexToken::Eof <==> next_at(s, bytes) == LexerNext::EOF)
            &&& (next_at(s, bytes) == LexerNext::EOF ==> s.pos() == bytes.len())
        },
    }
}

/// What is known of the character under the cursor of a consistent place and of the moves
/// from there.
pub open spec fn moves_known(s: Scan, bytes: Seq<u8>) -> bool {
    let pos = s.pos();
    let c = char_at(bytes, pos);
    let rest = rest_at(bytes, pos);
    &&& c is None <==> pos == bytes.len()
    &&& c matches Some(ch) ==> lands(bytes, pos, char_width(ch) as int) && 1 <= char_width(ch) <= 4
    &&& c matches Some(ch) ==> (rest.len() > 0 && (ch as u32) < 0x80 && (rest[0] as u32) < 0x80
        ==> lands(bytes, pos, 2))
}

/// The transitions from the top state are sound.
proof fn lemma_step_blank(s: Scan, bytes: Seq<u8>)
    requires
        scan_wf(s, bytes),
        moves_known(s, bytes),
        s.state is Top,
    ensures
        step_sound(s, bytes),
{
}

/// The transitions from the states of whitespace and line endings are sound.
proof fn lemma_step_spacing(s: Scan, bytes: Seq<u8>)
    requires
        scan_wf(s, bytes),
        moves_known(s, bytes),
        s.state is Whitespace || s.state is Break || s.state is Newline,
    ensures
        step_sound(s, bytes),
{
}

/// The transitions from the states of numbers and units are sound.
proof fn lemma_step_numeric(s: Scan, bytes: Seq<u8>)
    requires
        scan_wf(s, bytes),
        moves_known(s, bytes),
        s.state is Number || s.state is Float || s.state is FloatWithExponent || s.state is Unit,
    ensures
        step_sound(s, bytes),
{
    let c = char_at(bytes, s.pos());
    let rest = rest_at(bytes, s.pos());
    if c is Some && rest.len() > 0 && is_unit(c->0, rest[0]) {
        lemma_unit_ascii(c->0, rest[0]);
    }
}

/// The transitions from the states of command names are sound.
proof fn lemma_step_command(s: Scan, bytes: Seq<u8>)
    requires
        scan_wf(s, bytes),
        moves_known(s, bytes),
        s.state is CommandNameBegin || s.state is CommandNameContinueBegin || s.state is CommandNameContinue,
    ensures
        step_sound(s, bytes),
{
}

/// The transitions from the states of variable names and escapes are sound.
proof fn lemma_step_variable(s: Scan, bytes: Seq<u8>)
    requires
        scan_wf(s, bytes),
        moves_known(s, bytes),
        s.state is VariableName || s.state is VariableNameStart || s.state is VariableNameContinue || s.state is UnicodeEscape || s.state is UnicodeEscapeValue,
    ensures
        step_sound(s, bytes),
{
}

/// The transitions from the states of parameters, comments and symbols are sound.
proof fn lemma_step_parameter(s: Scan, bytes: Seq<u8>)
    requires
        scan_wf(s, bytes),
        moves_known(s, bytes),
        s.state is MacroParameter || s.state is MacroParameterContinue || s.state is Comment || s.state is Symbol,
    ensures
        step_sound(s, bytes),
{
    let c = char_at(bytes, s.pos());
    let rest = rest_at(bytes, s.pos());
    if c is Some && rest.len() > 0 && composite_symbol(c->0, rest[0]) is Some {
        lemma_composite_symbol_ascii(c->0, rest[0]);
    }
}

/// The transitions from the states of words are sound.
proof fn lemma_step_word(s: Scan, bytes: Seq<u8>)
    requires
        scan_wf(s, bytes),
        moves_known(s, bytes),
        s.state is Word || s.state is AWord || s.state is UWord,
    ensures
        step_sound(s, bytes),
{
}

/// Every transition from a consistent place is sound.
pub proof fn lemma_step(s: Scan, bytes: Seq<u8>)
    requires
        scan_wf(s, bytes),
    ensures
        step_sound(s, bytes),
{
    lemma_moves(bytes, s.pos());
    match s.state {
        LexerState::Top { .. } => lemma_step_blank(s, bytes),
        LexerState::Whitespace { .. } | LexerState::Break | LexerState::Newline { .. } => {
            lemma_step_spacing(s, bytes)
        },
        LexerState::Number | LexerState::Float | LexerState::FloatWithExponent | LexerState::Unit => {
            lemma_step_numeric(s, bytes)
        },
        LexerState::CommandNameBegin
        | LexerState::CommandNameContinueBegin
        | LexerState::CommandNameContinue => lemma_step_command(s, bytes),
        LexerState::VariableName
        | LexerState::VariableNameStart
        | LexerState::VariableNameContinue
        | LexerState::UnicodeEscape
        | LexerState::UnicodeEscapeValue => lemma_step_variable(s, bytes),
        LexerState::MacroParameter
        | LexerState::MacroParameterContinue
        | LexerState::Comment
        | LexerState::Symbol => lemma_step_parameter(s, bytes),
        LexerState::Word | LexerState::AWord | LexerState::UWord => lemma_step_word(s, bytes),
    }
}

/// The next token at the place `s` of the text `bytes`: the state machine runs until a
/// transition returns one.
#[via_fn]
proof fn scan_decreases(s: Scan, bytes: Seq<u8>) {
    if scan_wf(s, bytes) {
        lemma_step(s, bytes);
    }
}

pub open spec fn scan(s: Scan, bytes: Seq<u8>) -> Outcome
    decreases measure(s, bytes),
    when scan_wf(s, bytes)
    via scan_decreases
{
    match step_outcome(next_at(s, bytes), s) {
        Outcome::Continue(s2) => scan(s2, bytes),
        done => done,
    }
}

/// Whether the token under construction at the place `s` will not be handed out empty:
/// either characters have been accumulated for it, or the state takes the character under
/// the cursor before it hands anything out.
pub open spec fn lively(s: Scan, bytes: Seq<u8>) -> bool {
    let c = char_at(bytes, s.pos());
    match s.state {
        LexerState::Number => s.token_len > 0 || (c matches Some(ch) && is_digit(ch)),
        LexerState::Comment => s.token_len > 0 || (c matches Some(ch) && !is_newline_char(ch)),
        LexerState::Break => s.token_len > 0 || (c matches Some(ch) && is_newline_char(ch)),
        LexerState::AWord => s.token_len > 0 || (c matches Some(ch) && is_ascii_alphabetic(ch)),
        LexerState::UWord => s.token_len > 0 || (c matches Some(ch) && alphabetic(ch)),
        LexerState::Whitespace { from, len, .. } => if from == FromSeperator::Inline {
            s.token_len > 0 || (c matches Some(ch) && is_whitespace(ch))
        } else {
            s.token_len - len > 0
        },
        _ => is_fresh(s.state) || s.token_len > 0,
    }
}

/// What holds of the transition at a consistent place whose token will not be empty: a
/// token that it returns is not empty, unless it closes the stream, and the place that it
/// leads to is one whose token will not be empty.
pub open spec fn step_lively(s: Scan, bytes: Seq<u8>) -> bool {
    match step_outcome(next_at(s, bytes), s) {
        Outcome::Continue(s2) => lively(s2, bytes),
        Outcome::Return { token, start, len, after } => (token != LexToken::Eof ==> len > 0)
            && lively(after, bytes),
    }
}

/// The transitions from the top state hand out no empty token.
proof fn lemma_lively_blank(s: Scan, bytes: Seq<u8>)
    requires
        scan_wf(s, bytes),
        lively(s, bytes),
        moves_known(s, bytes),
        step_sound(s, bytes),
        s.state is Top,
    ensures
        step_lively(s, bytes),
{
}

/// The transitions from the states of whitespace and line endings hand out no empty token.
proof fn lemma_lively_spacing(s: Scan, bytes: Seq<u8>)
    requires
        scan_wf(s, bytes),
        lively(s, bytes),
        moves_known(s, bytes),
        step_sound(s, bytes),
        s.state is Whitespace || s.state is Break || s.state is Newline,
    ensures
        step_lively(s, bytes),
{
}

/// The transitions from the states of numbers and units hand out no empty token.
proof fn lemma_lively_numeric(s: Scan, bytes: Seq<u8>)
    requires
        scan_wf(s, bytes),
        lively(s, bytes),
        moves_known(s, bytes),
        step_sound(s, bytes),
        s.state is Number || s.state is Float || s.state is FloatWithExponent || s.state is Unit,
    ensures
        step_lively(s, bytes),
{
}

/// The transitions from the states of command names hand out no empty token.
proof fn lemma_lively_command(s: Scan, bytes: Seq<u8>)
    requires
        scan_wf(s, bytes),
        lively(s, bytes),
        moves_known(s, bytes),
        step_sound(s, bytes),
        s.state is CommandNameBegin || s.state is CommandNameContinueBegin || s.state is CommandNameContinue,
    ensures
        step_lively(s, bytes),
{
}

/// The transitions from the states of variable names and escapes hand out no empty token.
proof fn lemma_lively_variable(s: Scan, bytes: Seq<u8>)
    requires
        scan_wf(s, bytes),
        lively(s, bytes),
        moves_known(s, bytes),
        step_sound(s, bytes),
        s.state is VariableName || s.state is VariableNameStart || s.state is VariableNameContinue || s.state is UnicodeEscape || s.state is UnicodeEscapeValue,
    ensures
        step_lively(s, bytes),
{
}

/// The transitions from the states of parameters, comments and symbols hand out no empty token.
proof fn lemma_lively_parameter(s: Scan, bytes: Seq<u8>)
    requires
        scan_wf(s, bytes),
        lively(s, bytes),
        moves_known(s, bytes),
        step_sound(s, bytes),
        s.state is MacroParameter || s.state is MacroParameterContinue || s.state is Comment || s.state is Symbol,
    ensures
        step_lively(s, bytes),
{
}

/// The transitions from the states of words hand out no empty token.
proof fn lemma_lively_word(s: Scan, bytes: Seq<u8>)
    requires
        scan_wf(s, bytes),
        lively(s, bytes),
        moves_known(s, bytes),
        step_sound(s, bytes),
        s.state is Word || s.state is AWord || s.state is UWord,
    ensures
        step_lively(s, bytes),
{
}

/// Every transition from a consistent place whose token will not be empty keeps it so.
pub proof fn lemma_step_lively(s: Scan, bytes: Seq<u8>)
    requires
        scan_wf(s, bytes),
        lively(s, bytes),
    ensures
        step_lively(s, bytes),
{
    lemma_moves(bytes, s.pos());
    lemma_step(s, bytes);
    match s.state {
        LexerState::Top { .. } => lemma_lively_blank(s, bytes),
        LexerState::Whitespace { .. } | LexerState::Break | LexerState::Newline { .. } => {
            lemma_lively_spacing(s, bytes)
        },
        LexerState::Number | LexerState::Float | LexerState::FloatWithExponent | LexerState::Unit => {
            lemma_lively_numeric(s, bytes)
        },
        LexerState::CommandNameBegin
        | LexerState::CommandNameContinueBegin
        | LexerState::CommandNameContinue => lemma_lively_command(s, bytes),
        LexerState::VariableName
        | LexerState::VariableNameStart
        | LexerState::VariableNameContinue
        | LexerState::UnicodeEscape
        | LexerState::UnicodeEscapeValue => lemma_lively_variable(s, bytes),
        LexerState::MacroParameter
        | LexerState::MacroParameterContinue
        | LexerState::Comment
        | LexerState::Symbol => lemma_lively_parameter(s, bytes),
        LexerState::Word | LexerState::AWord | LexerState::UWord => lemma_lively_word(s, bytes),
    }
}

/// No token is empty but the one that closes the stream: the next token at a consistent
/// place whose token will not be empty has at least one byte, and the tokenizer goes on
/// from such a place.
pub proof fn lemma_scan_nonempty(s: Scan, bytes: Seq<u8>)
    requires
        scan_wf(s, bytes),
        lively(s, bytes),
    ensures
        scan(s, bytes) matches Outcome::Return { token, start, len, after } && (token
            != LexToken::Eof ==> len > 0) && lively(after, bytes) && scan_wf(after, bytes)
            && start == s.start && after.start == start + len && after.token_len == 0,
    decreases measure(s, bytes),
{
    lemma_step(s, bytes);
    lemma_step_lively(s, bytes);
    match step_outcome(next_at(s, bytes), s) {
        Outcome::Continue(s2) => {
            lemma_scan_nonempty(s2, bytes);
        },
        _ => {},
    }
}

/// Whether a tokenizer's loop goes on or returns.
pub enum LoopCompletion<T> {
    Continue,
    Return(T),
}

/// Runs the state machine over a text and hands out its tokens one by one.
pub struct Tokenizer<'table> {
    state: LexerState,
    input: &'table str,
    start: usize,
    token_len: usize,
    exhausted: bool,
}

impl<'table> Tokenizer<'table> {
    /// The place of the tokenizer in its text.
    pub closed spec fn place(&self) -> Scan {
        Scan { state: self.state, start: self.start as int, token_len: self.token_len as int }
    }

    /// The bytes of the text.
    pub closed spec fn bytes(&self) -> Seq<u8> {
        self.input.spec_bytes()
    }

    /// Whether the closing token has been handed out.
    pub closed spec fn is_exhausted(&self) -> bool {
        self.exhausted
    }

    /// The tokenizer stands between two tokens, at a consistent place.
    pub open spec fn wf(&self) -> bool {
        &&& scan_wf(self.place(), self.bytes())
        &&& self.place().token_len == 0
        &&& lively(self.place(), self.bytes())
    }

    pub fn new(input: &'table str) -> (t: Tokenizer<'table>)
        ensures
            t.wf(),
            t.bytes() == input.spec_bytes(),
            t.place() == (Scan { state: top(), start: 0, token_len: 0 }),
            !t.is_exhausted(),
    {
        proof {
            lemma_str_bytes(input);
        }
        // the length of the text is a machine word
        let _ = input.as_bytes().len();
        Tokenizer { state: LexerState::top(), input, start: 0, token_len: 0, exhausted: false }
    }

    fn action(&mut self, action: LexerAction)
        requires
            action_fits(action, old(self).place(), usize::MAX as int),
        ensures
            final(self).place() == (Scan {
                token_len: action_len(action, old(self).place().token_len),
                ..old(self).place()
            }),
            final(self).bytes() == old(self).bytes(),
            final(self).is_exhausted() == old(self).is_exhausted(),
    {
        match action {
            LexerAction::Consume(n) => {
                self.token_len += n;
            },
            LexerAction::Reconsume => {},
            LexerAction::Reset(n) => {
                self.token_len -= n;
            },
        }
    }

    fn accumulate(&mut self, accum: LexerAccumulate) -> (r: LoopCompletion<
        Spanned<LexToken, CurrentFile>,
    >)
        requires
            accumulate_fits(accum, old(self).place(), usize::MAX as int),
        ensures
            final(self).bytes() == old(self).bytes(),
            final(self).is_exhausted() == old(self).is_exhausted(),
            match accumulate_outcome(accum, old(self).place()) {
                Outcome::Continue(s) => r is Continue && final(self).place() == s,
                Outcome::Return { token, start, len, after } => {
                    &&& r matches LoopCompletion::Return(item)
                    &&& item.value == token
                    &&& item.span.start() == start
                    &&& item.span.spec_len() == len
                    &&& final(self).place() == after
                },
            },
    {
        match accum {
            LexerAccumulate::Begin => { LoopCompletion::Continue },
            LexerAccumulate::Continue(action) => {
                self.action(action);
                LoopCompletion::Continue
            },
            LexerAccumulate::Skip(action) => {
                self.action(action);
                self.start += self.token_len;
                self.token_len = 0;
                LoopCompletion::Continue
            },
            LexerAccumulate::Emit { before, token } => {
                if let Some(before) = before {
                    self.action(before);
                }
                let start = self.start;
                let len = self.token_len;
                self.start += len;
                self.token_len = 0;
                LoopCompletion::Return(token.attach_span(start, len))
            },
        }
    }

    fn transition(&mut self, state: LexerState)
        ensures
            final(self).place() == old(self).place().with_state(state),
            final(self).bytes() == old(self).bytes(),
            final(self).is_exhausted() == old(self).is_exhausted(),
    {
        self.state = state;
    }

    fn step(&mut self, next: LexerNext) -> (r: LoopCompletion<Spanned<LexToken, CurrentFile>>)
        requires
            step_fits(next, old(self).place(), usize::MAX as int),
        ensures
            final(self).bytes() == old(self).bytes(),
            final(self).is_exhausted() == old(self).is_exhausted(),
            match step_outcome(next, old(self).place()) {
                Outcome::Continue(s) => r is Continue && final(self).place() == s,
                Outcome::Return { token, start, len, after } => {
                    &&& r matches LoopCompletion::Return(item)
                    &&& item.value == token
                    &&& item.span.start() == start
                    &&& item.span.spec_len() == len
                    &&& final(self).place() == after
                },
            },
    {
        match next {
            LexerNext::EOF => LoopCompletion::Return(
                LexToken::tombstone().attach_span(self.start, 0),
            ),
            LexerNext::Remain(accumulate) => self.accumulate(accumulate),
            LexerNext::Transition(accumulate, state) => {
                let ret = self.accumulate(accumulate);
                self.transition(state);
                ret
            },
        }
    }

    fn emit(&mut self, token: Spanned<LexToken, CurrentFile>) -> (r: Option<
        Spanned<LexToken, CurrentFile>,
    >)
        ensures
            final(self).bytes() == old(self).bytes(),
            final(self).place() == old(self).place(),
            old(self).is_exhausted() ==> r is None && final(self).is_exhausted(),
            !old(self).is_exhausted() ==> r == Some(token) && final(self).is_exhausted() == (
            token.value == LexToken::Eof),
    {
        if self.exhausted {
            return None;
        }
        if token.value == LexToken::tombstone() {
            self.exhausted = true;
        }
        Some(token)
    }

    /// Hands out the next token, the closing token at the end of the text, and nothing once
    /// that has been handed out.
    pub fn next(&mut self) -> (r: Option<Spanned<LexToken, CurrentFile>>)
        requires
            old(self).wf(),
        ensures
            final(self).wf(),
            final(self).bytes() == old(self).bytes(),
            old(self).is_exhausted() ==> r is None && final(self).place() == old(self).place()
                && final(self).is_exhausted(),
            !old(self).is_exhausted() ==> ({
                &&& scan(old(self).place(), old(self).bytes()) matches Outcome::Return {
                    token,
                    start,
                    len,
                    after,
                }
                &&& r matches Some(item)
                &&& item.value == token
                &&& item.span.start() == start
                &&& item.span.spec_len() == len
                &&& final(self).place() == after
                &&& final(self).is_exhausted() == (token == LexToken::Eof)
                &&& start == old(self).place().start
                &&& after.start == start + len
                &&& (token != LexToken::Eof ==> len > 0)
            }),
    {
        if self.exhausted {
            return None;
        }

        loop
            invariant
                scan_wf(self.place(), self.bytes()),
                self.bytes() == old(self).bytes(),
                !self.is_exhausted(),
                !old(self).is_exhausted(),
                old(self).wf(),
                self.place().start == old(self).place().start,
                scan(self.place(), self.bytes()) == scan(old(self).place(), old(self).bytes()),
            decreases measure(self.place(), self.bytes()),
        {
            let (c, rest) = self.peek();
            proof {
                lemma_step(self.place(), self.bytes());
                lemma_scan_nonempty(old(self).place(), old(self).bytes());
            }
            let next = self.state.next(c, rest);
            match self.step(next) {
                LoopCompletion::Return(item) => {
                    return self.emit(item);
                },
                LoopCompletion::Continue => {},
            }
        }
    }

    /// The character under the cursor and the text behind it.
    fn peek(&self) -> (r: (Option<char>, &'table str))
        requires
            scan_wf(self.place(), self.bytes()),
        ensures
            r.0 == char_at(self.bytes(), self.place().pos()),
            r.1@ == rest_at(self.bytes(), self.place().pos()),
    {
        let pos = self.start + self.token_len;
        let tail = tail_from(self.input, pos);
        let c = first_char(tail);
        proof {
            lemma_tail_view(self.input, tail, pos as int);
        }
        match c {
            Some(ch) => {
                proof {
                    lemma_str_head(tail);
                }
                let rest = tail_from(tail, len_utf8(ch));
                proof {
                    lemma_tail_view(tail, rest, char_width(ch) as int);
                }
                (c, rest)
            },
            None => (c, tail),
        }
    }
}

} // verus!
