//! The fixed tables of the tokenizer: units of measure and symbols.

use super::token::LexToken;
use crate::unicode::is_ascii;
use vstd::prelude::*;

verus! {

/// Whether `first` and `second` spell one of the two-letter units of measure:
/// bp, cc, cm, dd, em, ex, in, mm, mu, pc, pt, sp.
#[verifier::allow_in_spec]
pub fn is_unit(first: char, second: char) -> bool
    returns
        ((first == 'b' && second == 'p') || (first == 'c' && (second == 'c' || second == 'm')) || (
        first == 'd' && second == 'd') || (first == 'e' && (second == 'm' || second == 'x')) || (
        first == 'i' && second == 'n') || (first == 'm' && (second == 'm' || second == 'u')) || (
        first == 'p' && (second == 'c' || second == 't')) || (first == 's' && second == 'p')),
{
    (first == 'b' && second == 'p') || (first == 'c' && (second == 'c' || second == 'm')) || (first
        == 'd' && second == 'd') || (first == 'e' && (second == 'm' || second == 'x')) || (first
        == 'i' && second == 'n') || (first == 'm' && (second == 'm' || second == 'u')) || (first
        == 'p' && (second == 'c' || second == 't')) || (first == 's' && second == 'p')
}

/// The token of the two-character operator `first second`, if it is one.
#[verifier::allow_in_spec]
pub fn composite_symbol(first: char, second: char) -> Option<LexToken>
    returns
        (if first == '$' && second == '$' {
            Some(LexToken::MathDisplay)
        } else if first == ':' && second == ':' {
            Some(LexToken::PathSeparator)
        } else if first == '-' && second == '>' {
            Some(LexToken::RightArrow)
        } else if first == '<' && second == '-' {
            Some(LexToken::LeftArrow)
        } else if first == '<' && second == '=' {
            Some(LexToken::LessEqual)
        } else if first == '>' && second == '=' {
            Some(LexToken::GreaterEqual)
        } else if first == '!' && second == '=' {
            Some(LexToken::NotEqual)
        } else if first == '=' && second == '=' {
            Some(LexToken::DoubleEqual)
        } else if first == '+' && second == '=' {
            Some(LexToken::PlusEqual)
        } else if first == '-' && second == '=' {
            Some(LexToken::MinusEqual)
        } else if first == '*' && second == '=' {
            Some(LexToken::MulEqual)
        } else if first == '/' && second == '=' {
            Some(LexToken::DivEqual)
        } else {
            None
        }),
{
    if first == '$' && second == '$' {
        Some(LexToken::MathDisplay)
    } else if first == ':' && second == ':' {
        Some(LexToken::PathSeparator)
    } else if first == '-' && second == '>' {
        Some(LexToken::RightArrow)
    } else if first == '<' && second == '-' {
        Some(LexToken::LeftArrow)
    } else if first == '<' && second == '=' {
        Some(LexToken::LessEqual)
    } else if first == '>' && second == '=' {
        Some(LexToken::GreaterEqual)
    } else if first == '!' && second == '=' {
        Some(LexToken::NotEqual)
    } else if first == '=' && second == '=' {
        Some(LexToken::DoubleEqual)
    } else if first == '+' && second == '=' {
        Some(LexToken::PlusEqual)
    } else if first == '-' && second == '=' {
        Some(LexToken::MinusEqual)
    } else if first == '*' && second == '=' {
        Some(LexToken::MulEqual)
    } else if first == '/' && second == '=' {
        Some(LexToken::DivEqual)
    } else {
        None
    }
}

/// The token of the single-character symbol `c`; [`LexToken::Symbol`] for a character
/// that has no token of its own.
#[verifier::allow_in_spec]
pub fn symbol(c: char) -> LexToken
    returns
        (if c == '{' {
            LexToken::OpenBrace
        } else if c == '}' {
            LexToken::CloseBrace
        } else if c == '[' {
            LexToken::OpenBracket
        } else if c == ']' {
            LexToken::CloseBracket
        } else if c == '(' {
            LexToken::OpenParen
        } else if c == ')' {
            LexToken::CloseParen
        } else if c == '*' {
            LexToken::Star
        } else if c == '#' {
            LexToken::NumSign
        } else if c == '^' {
            LexToken::Carret
        } else if c == '<' {
            LexToken::Less
        } else if c == '>' {
            LexToken::Greater
        } else if c == '_' {
            LexToken::Underscore
        } else if c == '\'' {
            LexToken::SingleApostrophe
        } else if c == '"' {
            LexToken::DoubleApostrophe
        } else if c == '/' {
            LexToken::Slash
        } else if c == '~' {
            LexToken::Tilde
        } else if c == ',' {
            LexToken::Comma
        } else if c == ';' {
            LexToken::Semicolon
        } else if c == '&' {
            LexToken::Ampersand
        } else if c == '=' {
            LexToken::Equal
        } else if c == '|' {
            LexToken::Pipe
        } else if c == ':' {
            LexToken::Colon
        } else if c == '$' {
            LexToken::Dollar
        } else if c == '-' {
            LexToken::Minus
        } else if c == '+' {
            LexToken::Plus
        } else if c == '.' {
            LexToken::Period
        } else if c == '@' {
            LexToken::At
        } else if c == '?' {
            LexToken::Question
        } else if c == '!' {
            LexToken::Bang
        } else {
            LexToken::Symbol
        }),
{
    if c == '{' {
        LexToken::OpenBrace
    } else if c == '}' {
        LexToken::CloseBrace
    } else if c == '[' {
        LexToken::OpenBracket
    } else if c == ']' {
        LexToken::CloseBracket
    } else if c == '(' {
        LexToken::OpenParen
    } else if c == ')' {
        LexToken::CloseParen
    } else if c == '*' {
        LexToken::Star
    } else if c == '#' {
        LexToken::NumSign
    } else if c == '^' {
        LexToken::Carret
    } else if c == '<' {
        LexToken::Less
    } else if c == '>' {
        LexToken::Greater
    } else if c == '_' {
        LexToken::Underscore
    } else if c == '\'' {
        LexToken::SingleApostrophe
    } else if c == '"' {
        LexToken::DoubleApostrophe
    } else if c == '/' {
        LexToken::Slash
    } else if c == '~' {
        LexToken::Tilde
    } else if c == ',' {
        LexToken::Comma
    } else if c == ';' {
        LexToken::Semicolon
    } else if c == '&' {
        LexToken::Ampersand
    } else if c == '=' {
        LexToken::Equal
    } else if c == '|' {
        LexToken::Pipe
    } else if c == ':' {
        LexToken::Colon
    } else if c == '$' {
        LexToken::Dollar
    } else if c == '-' {
        LexToken::Minus
    } else if c == '+' {
        LexToken::Plus
    } else if c == '.' {
        LexToken::Period
    } else if c == '@' {
        LexToken::At
    } else if c == '?' {
        LexToken::Question
    } else if c == '!' {
        LexToken::Bang
    } else {
        LexToken::Symbol
    }
}

/// Both characters of a two-character operator are ASCII.
pub proof fn lemma_composite_symbol_ascii(first: char, second: char)
    requires
        composite_symbol(first, second) is Some,
    ensures
        is_ascii(first),
        is_ascii(second),
{
}

/// Both letters of a unit are ASCII, the first between 'b' and 's'.
pub proof fn lemma_unit_ascii(first: char, second: char)
    requires
        is_unit(first, second),
    ensures
        'b' <= first <= 's',
        is_ascii(second),
{
}

} // verus!
