//! The states of the tokenizer and its transition function.

use super::infra::{consume, consume_str, reconsume, reset, LexerAction, LexerNext};
use super::tables::{composite_symbol, is_unit, symbol};
use super::token::LexToken;
use crate::text::{char_width, first_char, lemma_two_ascii_len, len_utf8, second_char};
use crate::unicode::{
    alphabetic, is_alphabetic, is_ascii, is_ascii_alphabetic, is_digit, xid_continue, xid_start,
};
use unicode_ident::{is_xid_continue, is_xid_start};
use vstd::prelude::*;

verus! {

/// Where a run of whitespace came from.
#[derive(Debug, Clone, Copy, PartialEq, Eq, Structural)]
pub enum FromSeperator {
    /// The whitespace stands inside a line.
    Inline,
    Newline,
    Break,
}

#[derive(Debug, Clone, Copy, PartialEq, Eq, Structural)]
pub enum LexerState {
    /// `unit` is true if a number occured before. This allows a unit to follow a number even
    /// with spaces or a single newline in between.
    Top { unit: bool },
    Word,
    AWord,
    UWord,
    Symbol,
    CommandNameBegin,
    CommandNameContinueBegin,
    CommandNameContinue,
    VariableName,
    VariableNameStart,
    VariableNameContinue,
    Comment,
    Number,
    Float,
    FloatWithExponent,
    Unit,
    /// `len` counts the bytes of whitespace accumulated since the state was entered.
    Whitespace { unit: bool, from: FromSeperator, len: usize },
    Newline { unit: bool },
    Break,
    MacroParameter,
    MacroParameterContinue,
    UnicodeEscape,
    UnicodeEscapeValue,
}

/// The state in which every token stream starts.
#[verifier::allow_in_spec]
pub fn top() -> LexerState
    returns
        (LexerState::Top { unit: false }),
{
    LexerState::Top { unit: false }
}

/// Whitespace characters, newlines not among them.
#[verifier::allow_in_spec]
pub fn is_whitespace(c: char) -> bool
    returns
        (c == '\u{0009}' || c == '\u{0020}' || c == '\u{00A0}' || c == '\u{1680}' || c
            == '\u{202F}' || c == '\u{3000}' || c == '\u{200E}' || c == '\u{200F}'),
{
    c == '\u{0009}' || c == '\u{0020}' || c == '\u{00A0}' || c == '\u{1680}' || c == '\u{202F}'
        || c == '\u{3000}' || c == '\u{200E}' || c == '\u{200F}'
}

/// Characters that end a line.
#[verifier::allow_in_spec]
pub fn is_newline_char(c: char) -> bool
    returns
        (c == '\u{000A}' || c == '\u{000B}' || c == '\u{000C}' || c == '\u{000D}' || c
            == '\u{0085}' || c == '\u{2028}' || c == '\u{2029}'),
{
    c == '\u{000A}' || c == '\u{000B}' || c == '\u{000C}' || c == '\u{000D}' || c == '\u{0085}'
        || c == '\u{2028}' || c == '\u{2029}'
}

/// The paragraph separator, which is a break by itself.
#[verifier::allow_in_spec]
pub fn is_break(c: char) -> bool
    returns
        c == '\u{2029}',
{
    c == '\u{2029}'
}

/// Whether `rest` begins with the character `c`.
pub open spec fn starts_with(rest: Seq<char>, c: char) -> bool {
    rest.len() > 0 && rest[0] == c
}

/// Whether `c`, followed by `rest`, begins a line ending.
pub open spec fn newline_at(c: char, rest: Seq<char>) -> bool {
    (c == '\r' && starts_with(rest, '\n')) || is_newline_char(c)
}

/// Whether `c`, followed by `rest`, begins a carriage return and line feed.
pub open spec fn multichar_newline_at(c: char, rest: Seq<char>) -> bool {
    c == '\r' && starts_with(rest, '\n')
}

/// Whether `rest` begins with a digit.
pub open spec fn continue_numeric(rest: Seq<char>) -> bool {
    rest.len() > 0 && is_digit(rest[0])
}

/// Whether `rest` begins with a minus sign and a digit.
pub open spec fn continue_minus_numeric(rest: Seq<char>) -> bool {
    rest.len() > 1 && rest[0] == '-' && is_digit(rest[1])
}

/// Whether `first`, followed by `rest`, spells a unit that no letter follows.
pub open spec fn unit_at(first: char, rest: Seq<char>) -> bool {
    &&& rest.len() > 0
    &&& is_unit(first, rest[0])
    &&& (rest.len() > 1 ==> !alphabetic(rest[1]))
}

fn begins_with(rest: &str, c: char) -> (b: bool)
    ensures
        b == starts_with(rest@, c),
{
    match first_char(rest) {
        Some(f) => f == c,
        None => false,
    }
}

fn is_newline(c: char, rest: &str) -> (b: bool)
    ensures
        b == newline_at(c, rest@),
{
    if c == '\r' && begins_with(rest, '\n') {
        return true;
    }
    is_newline_char(c)
}

fn is_multichar_newline(c: char, rest: &str) -> (b: bool)
    ensures
        b == multichar_newline_at(c, rest@),
{
    c == '\r' && begins_with(rest, '\n')
}

fn is_continue_numeric(rest: &str) -> (b: bool)
    ensures
        b == continue_numeric(rest@),
{
    match first_char(rest) {
        Some(f) => is_digit(f),
        None => false,
    }
}

fn is_continue_minus_numeric(rest: &str) -> (b: bool)
    ensures
        b == continue_minus_numeric(rest@),
{
    match first_char(rest) {
        Some(f) => f == '-' && match second_char(rest) {
            Some(s) => is_digit(s),
            None => false,
        },
        None => false,
    }
}

fn is_unit_at(first: char, rest: &str) -> (b: bool)
    ensures
        b == unit_at(first, rest@),
{
    let unit = match first_char(rest) {
        Some(second) => is_unit(first, second),
        None => false,
    };
    let boundry = match second_char(rest) {
        Some(c) => !is_alphabetic(c),
        None => true,
    };
    unit && boundry
}

/// The action that consumes two one-byte characters.
pub open spec fn consume_two() -> LexerAction {
    LexerAction::Consume(2)
}

/// The state after a number: a unit may follow.
pub open spec fn after_number() -> LexerState {
    LexerState::Top { unit: true }
}

pub open spec fn top_next(unit: bool, c: Option<char>, rest: Seq<char>) -> LexerNext {
    match c {
        None => LexerNext::EOF,
        Some(c) => if is_whitespace(c) {
            LexerNext::begin(LexerState::Whitespace { unit, from: FromSeperator::Inline, len: 0 })
        } else if is_break(c) {
            LexerNext::begin(LexerState::Break)
        } else if multichar_newline_at(c, rest) {
            consume_two().and_transition(LexerState::Newline { unit })
        } else if newline_at(c, rest) {
            consume(c).and_transition(LexerState::Newline { unit })
        } else if is_digit(c) {
            LexerNext::begin(LexerState::Number)
        } else if c == '.' && continue_numeric(rest) {
            consume('.').and_transition(LexerState::Float)
        } else if unit && is_ascii(c) {
            reconsume().and_transition(LexerState::Unit)
        } else if c == '\\' {
            consume('\\').and_emit(LexToken::CommandIdent).and_transition(
                LexerState::CommandNameBegin,
            )
        } else if c == '#' {
            consume('#').and_transition(LexerState::MacroParameter)
        } else if c == '%' {
            LexerNext::begin(LexerState::Comment)
        } else if !alphabetic(c) {
            LexerNext::begin(LexerState::Symbol)
        } else {
            LexerNext::begin(LexerState::Word)
        },
    }
}

pub open spec fn whitespace_next(
    unit: bool,
    from: FromSeperator,
    len: usize,
    c: Option<char>,
    rest: Seq<char>,
) -> LexerNext {
    match c {
        None => reconsume().and_emit(LexToken::Whitespace).and_transition(top()),
        Some(c) => if newline_at(c, rest) && from != FromSeperator::Inline {
            reconsume().and_transition(LexerState::Break)
        } else if is_whitespace(c) {
            consume(c).and_transition(
                LexerState::Whitespace { unit, from, len: (len + char_width(c)) as usize },
            )
        } else if from == FromSeperator::Break {
            reset(len).and_emit(LexToken::Break).and_transition(top())
        } else if from == FromSeperator::Newline {
            reset(len).and_emit(LexToken::Newline).and_transition(top())
        } else {
            reconsume().and_emit(LexToken::Whitespace).and_transition(LexerState::Top { unit })
        },
    }
}

pub open spec fn break_next(c: Option<char>, rest: Seq<char>) -> LexerNext {
    match c {
        None => reconsume().and_emit(LexToken::Break).and_transition(top()),
        Some(c) => if is_whitespace(c) {
            reconsume().and_transition(
                LexerState::Whitespace { unit: false, from: FromSeperator::Break, len: 0 },
            )
        } else if multichar_newline_at(c, rest) {
            consume_two().and_remain()
        } else if newline_at(c, rest) {
            consume(c).and_remain()
        } else {
            reconsume().and_emit(LexToken::Break).and_transition(top())
        },
    }
}

pub open spec fn newline_next(unit: bool, c: Option<char>, rest: Seq<char>) -> LexerNext {
    match c {
        None => reconsume().and_emit(LexToken::Newline).and_transition(top()),
        Some(c) => if is_whitespace(c) {
            reconsume().and_transition(
                LexerState::Whitespace { unit, from: FromSeperator::Newline, len: 0 },
            )
        } else if multichar_newline_at(c, rest) {
            consume_two().and_transition(LexerState::Break)
        } else if newline_at(c, rest) {
            consume(c).and_transition(LexerState::Break)
        } else {
            reconsume().and_emit(LexToken::Newline).and_transition(LexerState::Top { unit })
        },
    }
}

pub open spec fn number_next(c: Option<char>, rest: Seq<char>) -> LexerNext {
    match c {
        None => reconsume().and_emit(LexToken::Integer).and_transition(top()),
        Some(c) => if is_digit(c) {
            consume(c).and_remain()
        } else if c == '_' && continue_numeric(rest) {
            consume('_').and_remain()
        } else if c == '.' && continue_numeric(rest) {
            consume('.').and_transition(LexerState::Float)
        } else if c == 'e' && continue_minus_numeric(rest) {
            consume_two().and_transition(LexerState::FloatWithExponent)
        } else if c == 'e' && continue_numeric(rest) {
            consume('e').and_transition(LexerState::FloatWithExponent)
        } else {
            reconsume().and_emit(LexToken::Integer).and_transition(after_number())
        },
    }
}

pub open spec fn float_next(c: Option<char>, rest: Seq<char>) -> LexerNext {
    match c {
        None => reconsume().and_emit(LexToken::Float).and_transition(top()),
        Some(c) => if is_digit(c) {
            consume(c).and_remain()
        } else if c == '_' && continue_numeric(rest) {
            consume('_').and_remain()
        } else if c == 'e' && continue_minus_numeric(rest) {
            consume_two().and_transition(LexerState::FloatWithExponent)
        } else if c == 'e' && continue_numeric(rest) {
            consume('e').and_transition(LexerState::FloatWithExponent)
        } else {
            reconsume().and_emit(LexToken::Float).and_transition(after_number())
        },
    }
}

pub open spec fn float_with_exponent_next(c: Option<char>, rest: Seq<char>) -> LexerNext {
    match c {
        None => reconsume().and_emit(LexToken::Float).and_transition(top()),
        Some(c) => if is_digit(c) {
            consume(c).and_remain()
        } else if c == '_' && continue_numeric(rest) {
            consume('_').and_remain()
        } else {
            reconsume().and_emit(LexToken::Float).and_transition(after_number())
        },
    }
}

pub open spec fn unit_next(c: Option<char>, rest: Seq<char>) -> LexerNext {
    match c {
        None => reconsume().and_discard().and_transition(top()),
        Some(first) => if 'b' <= first && first <= 's' && unit_at(first, rest) {
            consume_two().and_emit(LexToken::Unit).and_transition(top())
        } else {
            reconsume().and_transition(LexerState::Word)
        },
    }
}

pub open spec fn command_name_begin_next(c: Option<char>, rest: Seq<char>) -> LexerNext {
    match c {
        None => reconsume().and_discard().and_transition(top()),
        Some(c) => if is_whitespace(c) {
            reconsume().and_discard().and_transition(top())
        } else if newline_at(c, rest) {
            reconsume().and_discard().and_transition(top())
        } else if c == 'u' {
            consume('u').and_transition(LexerState::UnicodeEscape)
        } else if c == '@' {
            consume('@').and_emit(LexToken::VariableIdent).and_transition(
                LexerState::VariableName,
            )
        } else if c == ':' && starts_with(rest, ':') {
            consume_two().and_emit(LexToken::PathSeparator).and_transition(
                LexerState::CommandNameContinueBegin,
            )
        } else if xid_start(c) {
            consume(c).and_transition(LexerState::CommandNameContinue)
        } else if is_ascii(c) {
            consume(c).and_emit(LexToken::Command).and_transition(top())
        } else {
            reconsume().and_transition(LexerState::Word)
        },
    }
}

pub open spec fn command_name_continue_begin_next(c: Option<char>) -> LexerNext {
    match c {
        None => reconsume().and_discard().and_transition(top()),
        Some(c) => if c == '_' {
            reconsume().and_transition(top())
        } else if xid_start(c) {
            consume(c).and_transition(LexerState::CommandNameContinue)
        } else {
            reconsume().and_transition(LexerState::Word)
        },
    }
}

pub open spec fn command_name_continue_next(c: Option<char>, rest: Seq<char>) -> LexerNext {
    match c {
        None => reconsume().and_emit(LexToken::Command).and_transition(top()),
        Some(c) => if c == ':' && starts_with(rest, ':') {
            consume_two().and_emit(LexToken::PathSeparator).and_transition(
                LexerState::CommandNameContinueBegin,
            )
        } else if xid_continue(c) {
            consume(c).and_remain()
        } else {
            reconsume().and_emit(LexToken::Command).and_transition(top())
        },
    }
}

pub open spec fn variable_name_next(c: Option<char>, rest: Seq<char>) -> LexerNext {
    match c {
        None => reconsume().and_discard().and_transition(top()),
        Some(c) => if c == ':' && starts_with(rest, ':') {
            consume_two().and_emit(LexToken::PathSeparator).and_transition(
                LexerState::VariableNameStart,
            )
        } else if xid_start(c) {
            consume(c).and_transition(LexerState::VariableNameContinue)
        } else {
            reconsume().and_transition(LexerState::Word)
        },
    }
}

pub open spec fn variable_name_start_next(c: Option<char>) -> LexerNext {
    match c {
        None => reconsume().and_discard().and_transition(top()),
        Some(c) => if xid_start(c) {
            consume(c).and_transition(LexerState::VariableNameContinue)
        } else {
            reconsume().and_transition(LexerState::Word)
        },
    }
}

pub open spec fn variable_name_continue_next(c: Option<char>, rest: Seq<char>) -> LexerNext {
    match c {
        None => reconsume().and_emit(LexToken::Variable).and_transition(top()),
        Some(c) => if c == ':' && starts_with(rest, ':') {
            consume_two().and_emit(LexToken::PathSeparator).and_transition(
                LexerState::VariableNameStart,
            )
        } else if xid_continue(c) {
            consume(c).and_remain()
        } else {
            reconsume().and_emit(LexToken::Variable).and_transition(top())
        },
    }
}

pub open spec fn unicode_escape_next(c: Option<char>, rest: Seq<char>) -> LexerNext {
    match c {
        None => reconsume().and_emit(LexToken::UnicodeEscape).and_transition(top()),
        Some(c) => if c == '{' {
            consume('{').and_transition(LexerState::UnicodeEscapeValue)
        } else if is_whitespace(c) || newline_at(c, rest) {
            reconsume().and_emit(LexToken::UnicodeEscape).and_transition(top())
        } else {
            reconsume().and_transition(LexerState::CommandNameContinue)
        },
    }
}

pub open spec fn unicode_escape_value_next(c: Option<char>) -> LexerNext {
    match c {
        None => reconsume().and_emit(LexToken::UnicodeEscape).and_transition(top()),
        Some(c) => if c == '}' {
            consume('}').and_emit(LexToken::UnicodeEscape).and_transition(top())
        } else {
            consume(c).and_remain()
        },
    }
}

pub open spec fn macro_parameter_next(c: Option<char>) -> LexerNext {
    match c {
        None => reconsume().and_emit(LexToken::NumSign).and_transition(top()),
        Some(c) => if is_digit(c) {
            consume(c).and_transition(LexerState::MacroParameterContinue)
        } else if xid_start(c) {
            consume(c).and_transition(LexerState::MacroParameterContinue)
        } else {
            reconsume().and_emit(LexToken::NumSign).and_transition(top())
        },
    }
}

pub open spec fn macro_parameter_continue_next(c: Option<char>) -> LexerNext {
    match c {
        None => reconsume().and_emit(LexToken::MacroParameter).and_transition(top()),
        Some(c) => if c == '_' {
            reconsume().and_emit(LexToken::MacroParameter).and_transition(top())
        } else if xid_continue(c) {
            consume(c).and_remain()
        } else {
            reconsume().and_emit(LexToken::MacroParameter).and_transition(top())
        },
    }
}

pub open spec fn comment_next(c: Option<char>, rest: Seq<char>) -> LexerNext {
    match c {
        None => reconsume().and_emit(LexToken::Comment).and_transition(top()),
        Some(c) => if newline_at(c, rest) {
            reconsume().and_emit(LexToken::Comment).and_transition(top())
        } else {
            consume(c).and_remain()
        },
    }
}

pub open spec fn symbol_next(c: Option<char>, rest: Seq<char>) -> LexerNext {
    match c {
        None => reconsume().and_discard().and_transition(top()),
        Some(first) => if rest.len() > 0 && composite_symbol(first, rest[0]) is Some {
            consume_two().and_emit(composite_symbol(first, rest[0])->0).and_transition(top())
        } else {
            consume(first).and_emit(symbol(first)).and_transition(top())
        },
    }
}

pub open spec fn word_next(c: Option<char>) -> LexerNext {
    match c {
        None => reconsume().and_transition(top()),
        Some(c) => if is_ascii_alphabetic(c) {
            reconsume().and_transition(LexerState::AWord)
        } else if alphabetic(c) {
            reconsume().and_transition(LexerState::UWord)
        } else {
            reconsume().and_transition(top())
        },
    }
}

pub open spec fn aword_next(c: Option<char>) -> LexerNext {
    match c {
        None => reconsume().and_emit(LexToken::AWord).and_transition(top()),
        Some(c) => if !is_ascii_alphabetic(c) {
            reconsume().and_emit(LexToken::AWord).and_transition(top())
        } else {
            consume(c).and_remain()
        },
    }
}

pub open spec fn uword_next(c: Option<char>) -> LexerNext {
    match c {
        None => reconsume().and_emit(LexToken::UWord).and_transition(top()),
        Some(c) => if !alphabetic(c) {
            reconsume().and_emit(LexToken::UWord).and_transition(top())
        } else {
            consume(c).and_remain()
        },
    }
}

/// The transition that the state machine makes in `state` when the character under the
/// cursor is `c`, `None` at the end of the input, and `rest` follows it.
pub open spec fn transition(state: LexerState, c: Option<char>, rest: Seq<char>) -> LexerNext {
    match state {
        LexerState::Top { unit } => top_next(unit, c, rest),
        LexerState::Whitespace { unit, from, len } => whitespace_next(unit, from, len, c, rest),
        LexerState::Break => break_next(c, rest),
        LexerState::Newline { unit } => newline_next(unit, c, rest),
        LexerState::Number => number_next(c, rest),
        LexerState::Float => float_next(c, rest),
        LexerState::FloatWithExponent => float_with_exponent_next(c, rest),
        LexerState::Unit => unit_next(c, rest),
        LexerState::CommandNameBegin => command_name_begin_next(c, rest),
        LexerState::CommandNameContinueBegin => command_name_continue_begin_next(c),
        LexerState::CommandNameContinue => command_name_continue_next(c, rest),
        LexerState::VariableName => variable_name_next(c, rest),
        LexerState::VariableNameStart => variable_name_start_next(c),
        LexerState::VariableNameContinue => variable_name_continue_next(c, rest),
        LexerState::UnicodeEscape => unicode_escape_next(c, rest),
        LexerState::UnicodeEscapeValue => unicode_escape_value_next(c),
        LexerState::MacroParameter => macro_parameter_next(c),
        LexerState::MacroParameterContinue => macro_parameter_continue_next(c),
        LexerState::Comment => comment_next(c, rest),
        LexerState::Symbol => symbol_next(c, rest),
        LexerState::Word => word_next(c),
        LexerState::AWord => aword_next(c),
        LexerState::UWord => uword_next(c),
    }
}

/// The two-byte action for a two-character text.
fn consume_pair(s: &str) -> (a: LexerAction)
    requires
        s@.len() == 2,
        is_ascii(s@[0]),
        is_ascii(s@[1]),
    ensures
        a == consume_two(),
{
    proof {
        lemma_two_ascii_len(s@);
    }
    consume_str(s)
}

fn top_step(unit: bool, c: Option<char>, rest: &str) -> (r: LexerNext)
    ensures
        r == top_next(unit, c, rest@),
{
    proof {
        reveal_strlit("\r\n");
    }
    match c {
        None => LexerNext::EOF,
        Some(c) => {
            if is_whitespace(c) {
                LexerNext::begin(
                    LexerState::Whitespace {
                        unit,
                        from: FromSeperator::Inline,
                        len: 0,
                    },
                )
            } else if is_break(c) {
                LexerNext::begin(LexerState::Break)
            } else if is_multichar_newline(c, rest) {
                consume_pair("\r\n").and_transition(LexerState::Newline { unit })
            } else if is_newline(c, rest) {
                consume(c).and_transition(LexerState::Newline { unit })
            } else if is_digit(c) {
                LexerNext::begin(LexerState::Number)
            } else if c == '.' && is_continue_numeric(rest) {
                consume('.').and_transition(LexerState::Float)
            } else if unit && is_ascii(c) {
                reconsume().and_transition(LexerState::Unit)
            } else if c == '\\' {
                consume('\\').and_emit(LexToken::CommandIdent).and_transition(
                    LexerState::CommandNameBegin,
                )
            } else if c == '#' {
                consume('#').and_transition(LexerState::MacroParameter)
            } else if c == '%' {
                LexerNext::begin(LexerState::Comment)
            } else if !is_alphabetic(c) {
                LexerNext::begin(LexerState::Symbol)
            } else {
                LexerNext::begin(LexerState::Word)
            }
        },
    }
}

fn whitespace_step(unit: bool, from: FromSeperator, len: usize, c: Option<char>, rest: &str) -> (r: LexerNext)
    requires
        c is Some ==> len + char_width(c->0) <= usize::MAX,
    ensures
        r == whitespace_next(unit, from, len, c, rest@),
{
    match c {
        None => reconsume().and_emit(LexToken::Whitespace).and_transition(top()),
        Some(c) => {
            if is_newline(c, rest) && from != FromSeperator::Inline {
                reconsume().and_transition(LexerState::Break)
            } else if is_whitespace(c) {
                consume(c).and_transition(
                    LexerState::Whitespace {
                        unit,
                        from,
                        len: len + len_utf8(c),
                    },
                )
            } else if from == FromSeperator::Break {
                reset(len).and_emit(LexToken::Break).and_transition(top())
            } else if from == FromSeperator::Newline {
                reset(len).and_emit(LexToken::Newline).and_transition(top())
            } else {
                reconsume().and_emit(LexToken::Whitespace).and_transition(
                    LexerState::Top { unit },
                )
            }
        },
    }
}

fn break_step(c: Option<char>, rest: &str) -> (r: LexerNext)
    ensures
        r == break_next(c, rest@),
{
    proof {
        reveal_strlit("\r\n");
    }
    match c {
        None => reconsume().and_emit(LexToken::Break).and_transition(top()),
        Some(c) => {
            if is_whitespace(c) {
                reconsume().and_transition(
                    LexerState::Whitespace {
                        unit: false,
                        from: FromSeperator::Break,
                        len: 0,
                    },
                )
            } else if is_multichar_newline(c, rest) {
                consume_pair("\r\n").and_remain()
            } else if is_newline(c, rest) {
                consume(c).and_remain()
            } else {
                reconsume().and_emit(LexToken::Break).and_transition(top())
            }
        },
    }
}

fn newline_step(unit: bool, c: Option<char>, rest: &str) -> (r: LexerNext)
    ensures
        r == newline_next(unit, c, rest@),
{
    proof {
        reveal_strlit("\r\n");
    }
    match c {
        None => reconsume().and_emit(LexToken::Newline).and_transition(top()),
        Some(c) => {
            if is_whitespace(c) {
                reconsume().and_transition(
                    LexerState::Whitespace {
                        unit,
                        from: FromSeperator::Newline,
                        len: 0,
                    },
                )
            } else if is_multichar_newline(c, rest) {
                consume_pair("\r\n").and_transition(LexerState::Break)
            } else if is_newline(c, rest) {
                consume(c).and_transition(LexerState::Break)
            } else {
                reconsume().and_emit(LexToken::Newline).and_transition(
                    LexerState::Top { unit },
                )
            }
        },
    }
}

fn number_step(c: Option<char>, rest: &str) -> (r: LexerNext)
    ensures
        r == number_next(c, rest@),
{
    proof {
        reveal_strlit("e-");
    }
    match c {
        None => reconsume().and_emit(LexToken::Integer).and_transition(top()),
        Some(c) => {
            if is_digit(c) {
                consume(c).and_remain()
            } else if c == '_' && is_continue_numeric(rest) {
                consume('_').and_remain()
            } else if c == '.' && is_continue_numeric(rest) {
                consume('.').and_transition(LexerState::Float)
            } else if c == 'e' && is_continue_minus_numeric(rest) {
                consume_pair("e-").and_transition(LexerState::FloatWithExponent)
            } else if c == 'e' && is_continue_numeric(rest) {
                consume('e').and_transition(LexerState::FloatWithExponent)
            } else {
                reconsume().and_emit(LexToken::Integer).and_transition(
                    LexerState::Top { unit: true },
                )
            }
        },
    }
}

fn float_step(c: Option<char>, rest: &str) -> (r: LexerNext)
    ensures
        r == float_next(c, rest@),
{
    proof {
        reveal_strlit("e-");
    }
    match c {
        None => reconsume().and_emit(LexToken::Float).and_transition(top()),
        Some(c) => {
            if is_digit(c) {
                consume(c).and_remain()
            } else if c == '_' && is_continue_numeric(rest) {
                consume('_').and_remain()
            } else if c == 'e' && is_continue_minus_numeric(rest) {
                consume_pair("e-").and_transition(LexerState::FloatWithExponent)
            } else if c == 'e' && is_continue_numeric(rest) {
                consume('e').and_transition(LexerState::FloatWithExponent)
            } else {
                reconsume().and_emit(LexToken::Float).and_transition(
                    LexerState::Top { unit: true },
                )
            }
        },
    }
}

fn float_with_exponent_step(c: Option<char>, rest: &str) -> (r: LexerNext)
    ensures
        r == float_with_exponent_next(c, rest@),
{
    match c {
        None => reconsume().and_emit(LexToken::Float).and_transition(top()),
        Some(c) => {
            if is_digit(c) {
                consume(c).and_remain()
            } else if c == '_' && is_continue_numeric(rest) {
                consume('_').and_remain()
            } else {
                reconsume().and_emit(LexToken::Float).and_transition(
                    LexerState::Top { unit: true },
                )
            }
        },
    }
}

fn unit_step(c: Option<char>, rest: &str) -> (r: LexerNext)
    ensures
        r == unit_next(c, rest@),
{
    proof {
        reveal_strlit("mm");
    }
    match c {
        None => reconsume().and_discard().and_transition(top()),
        Some(first) => {
            // 'b'..='s' is the bound of the unit table
            if 'b' <= first && first <= 's' && is_unit_at(first, rest) {
                // all units have the same length in bytes
                consume_pair("mm").and_emit(LexToken::Unit).and_transition(top())
            } else {
                reconsume().and_transition(LexerState::Word)
            }
        },
    }
}

fn command_name_begin_step(c: Option<char>, rest: &str) -> (r: LexerNext)
    ensures
        r == command_name_begin_next(c, rest@),
{
    proof {
        reveal_strlit("::");
    }
    match c {
        None => reconsume().and_discard().and_transition(top()),
        Some(c) => {
            if is_whitespace(c) {
                reconsume().and_discard().and_transition(top())
            } else if is_newline(c, rest) {
                reconsume().and_discard().and_transition(top())
            } else if c == 'u' {
                consume('u').and_transition(LexerState::UnicodeEscape)
            } else if c == '@' {
                consume('@').and_emit(LexToken::VariableIdent).and_transition(
                    LexerState::VariableName,
                )
            } else if c == ':' && begins_with(rest, ':') {
                consume_pair("::").and_emit(LexToken::PathSeparator).and_transition(
                    LexerState::CommandNameContinueBegin,
                )
            } else if is_xid_start(c) {
                consume(c).and_transition(LexerState::CommandNameContinue)
            } else if is_ascii(c) {
                consume(c).and_emit(LexToken::Command).and_transition(top())
            } else {
                reconsume().and_transition(LexerState::Word)
            }
        },
    }
}

// only entered after a `::` has been consumed
fn command_name_continue_begin_step(c: Option<char>) -> (r: LexerNext)
    ensures
        r == command_name_continue_begin_next(c),
{
    match c {
        None => reconsume().and_discard().and_transition(top()),
        Some(c) => {
            if c == '_' {
                // abort if an '_' follows
                reconsume().and_transition(top())
            } else if is_xid_start(c) {
                consume(c).and_transition(LexerState::CommandNameContinue)
            } else {
                reconsume().and_transition(LexerState::Word)
            }
        },
    }
}

fn command_name_continue_step(c: Option<char>, rest: &str) -> (r: LexerNext)
    ensures
        r == command_name_continue_next(c, rest@),
{
    proof {
        reveal_strlit("::");
    }
    match c {
        None => reconsume().and_emit(LexToken::Command).and_transition(top()),
        Some(c) => {
            if c == ':' && begins_with(rest, ':') {
                consume_pair("::").and_emit(LexToken::PathSeparator).and_transition(
                    LexerState::CommandNameContinueBegin,
                )
            } else if is_xid_continue(c) {
                consume(c).and_remain()
            } else {
                reconsume().and_emit(LexToken::Command).and_transition(top())
            }
        },
    }
}

// only entered after '\@' has been consumed
fn variable_name_step(c: Option<char>, rest: &str) -> (r: LexerNext)
    ensures
        r == variable_name_next(c, rest@),
{
    proof {
        reveal_strlit("::");
    }
    match c {
        None => reconsume().and_discard().and_transition(top()),
        Some(c) => {
            if c == ':' && begins_with(rest, ':') {
                consume_pair("::").and_emit(LexToken::PathSeparator).and_transition(
                    LexerState::VariableNameStart,
                )
            } else if is_xid_start(c) {
                consume(c).and_transition(LexerState::VariableNameContinue)
            } else {
                reconsume().and_transition(LexerState::Word)
            }
        },
    }
}

fn variable_name_start_step(c: Option<char>) -> (r: LexerNext)
    ensures
        r == variable_name_start_next(c),
{
    match c {
        None => reconsume().and_discard().and_transition(top()),
        Some(c) => {
            if is_xid_start(c) {
                consume(c).and_transition(LexerState::VariableNameContinue)
            } else {
                reconsume().and_transition(LexerState::Word)
            }
        },
    }
}

fn variable_name_continue_step(c: Option<char>, rest: &str) -> (r: LexerNext)
    ensures
        r == variable_name_continue_next(c, rest@),
{
    proof {
        reveal_strlit("::");
    }
    match c {
        None => reconsume().and_emit(LexToken::Variable).and_transition(top()),
        Some(c) => {
            if c == ':' && begins_with(rest, ':') {
                consume_pair("::").and_emit(LexToken::PathSeparator).and_transition(
                    LexerState::VariableNameStart,
                )
            } else if is_xid_continue(c) {
                consume(c).and_remain()
            } else {
                reconsume().and_emit(LexToken::Variable).and_transition(top())
            }
        },
    }
}

fn unicode_escape_step(c: Option<char>, rest: &str) -> (r: LexerNext)
    ensures
        r == unicode_escape_next(c, rest@),
{
    match c {
        None => reconsume().and_emit(LexToken::UnicodeEscape).and_transition(top()),
        Some(c) => {
            if c == '{' {
                consume('{').and_transition(LexerState::UnicodeEscapeValue)
            } else if is_whitespace(c) || is_newline(c, rest) {
                reconsume().and_emit(LexToken::UnicodeEscape).and_transition(top())
            } else {
                reconsume().and_transition(LexerState::CommandNameContinue)
            }
        },
    }
}

fn unicode_escape_value_step(c: Option<char>) -> (r: LexerNext)
    ensures
        r == unicode_escape_value_next(c),
{
    match c {
        None => reconsume().and_emit(LexToken::UnicodeEscape).and_transition(top()),
        Some(c) => {
            if c == '}' {
                consume('}').and_emit(LexToken::UnicodeEscape).and_transition(top())
            } else {
                consume(c).and_remain()
            }
        },
    }
}

fn macro_parameter_step(c: Option<char>) -> (r: LexerNext)
    ensures
        r == macro_parameter_next(c),
{
    match c {
        None => reconsume().and_emit(LexToken::NumSign).and_transition(top()),
        Some(c) => {
            if is_digit(c) {
                consume(c).and_transition(LexerState::MacroParameterContinue)
            } else if is_xid_start(c) {
                consume(c).and_transition(LexerState::MacroParameterContinue)
            } else {
                reconsume().and_emit(LexToken::NumSign).and_transition(top())
            }
        },
    }
}

fn macro_parameter_continue_step(c: Option<char>) -> (r: LexerNext)
    ensures
        r == macro_parameter_continue_next(c),
{
    match c {
        None => reconsume().and_emit(LexToken::MacroParameter).and_transition(top()),
        Some(c) => {
            if c == '_' {
                reconsume().and_emit(LexToken::MacroParameter).and_transition(top())
            } else if is_xid_continue(c) {
                consume(c).and_remain()
            } else {
                reconsume().and_emit(LexToken::MacroParameter).and_transition(top())
            }
        },
    }
}

fn comment_step(c: Option<char>, rest: &str) -> (r: LexerNext)
    ensures
        r == comment_next(c, rest@),
{
    match c {
        None => reconsume().and_emit(LexToken::Comment).and_transition(top()),
        Some(c) => {
            if is_newline(c, rest) {
                reconsume().and_emit(LexToken::Comment).and_transition(top())
            } else {
                consume(c).and_remain()
            }
        },
    }
}

fn symbol_step(c: Option<char>, rest: &str) -> (r: LexerNext)
    ensures
        r == symbol_next(c, rest@),
{
    proof {
        reveal_strlit("$$");
    }
    match c {
        None => reconsume().and_discard().and_transition(top()),
        Some(first) => {
            if let Some(second) = first_char(rest) {
                if let Some(token) = composite_symbol(first, second) {
                    return consume_pair("$$").and_emit(token).and_transition(top());
                }
            }
            let token = symbol(first);
            consume(first).and_emit(token).and_transition(top())
        },
    }
}

fn word_step(c: Option<char>) -> (r: LexerNext)
    ensures
        r == word_next(c),
{
    match c {
        None => reconsume().and_transition(top()),
        Some(c) => {
            if is_ascii_alphabetic(c) {
                reconsume().and_transition(LexerState::AWord)
            } else if is_alphabetic(c) {
                reconsume().and_transition(LexerState::UWord)
            } else {
                reconsume().and_transition(top())
            }
        },
    }
}

fn aword_step(c: Option<char>) -> (r: LexerNext)
    ensures
        r == aword_next(c),
{
    match c {
        None => reconsume().and_emit(LexToken::AWord).and_transition(top()),
        Some(c) => {
            if !is_ascii_alphabetic(c) {
                reconsume().and_emit(LexToken::AWord).and_transition(top())
            } else {
                consume(c).and_remain()
            }
        },
    }
}

fn uword_step(c: Option<char>) -> (r: LexerNext)
    ensures
        r == uword_next(c),
{
    match c {
        None => reconsume().and_emit(LexToken::UWord).and_transition(top()),
        Some(c) => {
            if !is_alphabetic(c) {
                reconsume().and_emit(LexToken::UWord).and_transition(top())
            } else {
                consume(c).and_remain()
            }
        },
    }
}

impl LexerState {
    /// A `Whitespace` state can take the character `c` into its count.
    pub open spec fn has_room(&self, c: Option<char>) -> bool {
        self matches LexerState::Whitespace { len, .. } ==> (c is Some ==> len + char_width(
            c->0,
        ) <= usize::MAX)
    }

    /// The state in which every token stream starts.
    pub fn top() -> (s: LexerState)
        ensures
            s == top(),
    {
        LexerState::Top { unit: false }
    }

    /// Makes one transition: `c` is the character under the cursor, `None` at the end of the
    /// input, and `rest` is the text that follows it.
    pub fn next(&self, c: Option<char>, rest: &str) -> (r: LexerNext)
        requires
            self.has_room(c),
        ensures
            r == transition(*self, c, rest@),
    {
        match self {
            LexerState::Top { unit } => top_step(*unit, c, rest),
            LexerState::Whitespace { unit, from, len } => whitespace_step(*unit, *from, *len, c, rest),
            LexerState::Break => break_step(c, rest),
            LexerState::Newline { unit } => newline_step(*unit, c, rest),
            LexerState::Number => number_step(c, rest),
            LexerState::Float => float_step(c, rest),
            LexerState::FloatWithExponent => float_with_exponent_step(c, rest),
            LexerState::Unit => unit_step(c, rest),
            LexerState::CommandNameBegin => command_name_begin_step(c, rest),
            LexerState::CommandNameContinueBegin => command_name_continue_begin_step(c),
            LexerState::CommandNameContinue => command_name_continue_step(c, rest),
            LexerState::VariableName => variable_name_step(c, rest),
            LexerState::VariableNameStart => variable_name_start_step(c),
            LexerState::VariableNameContinue => variable_name_continue_step(c, rest),
            LexerState::UnicodeEscape => unicode_escape_step(c, rest),
            LexerState::UnicodeEscapeValue => unicode_escape_value_step(c),
            LexerState::MacroParameter => macro_parameter_step(c),
            LexerState::MacroParameterContinue => macro_parameter_continue_step(c),
            LexerState::Comment => comment_step(c, rest),
            LexerState::Symbol => symbol_step(c, rest),
            LexerState::Word => word_step(c),
            LexerState::AWord => aword_step(c),
            LexerState::UWord => uword_step(c),
        }
    }
}

} // verus!
