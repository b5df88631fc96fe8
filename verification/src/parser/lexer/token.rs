//! The lexical tokens that the state-machine tokenizer emits.

use vstd::prelude::*;

verus! {

/// A token type that has a distinguished value closing a token stream.
pub trait Tombstone: Sized {
    /// The closing value.
    spec fn tombstone_spec() -> Self;

    /// Returns the closing value.
    fn tombstone() -> (t: Self)
        ensures
            t == Self::tombstone_spec(),
    ;
}

#[derive(Clone, Copy, Debug, PartialEq, Eq, Structural)]
pub enum LexToken {
    /// Backslash character ('\\')
    CommandIdent,
    /// Command name, such as 'newcommand', 'renewcommand', etc. after a backslash.
    Command,
    /// '@' character after a backslash.
    VariableIdent,
    /// A variable name, such as 'jobname', 'year', etc. after a backslash and '@'.
    Variable,
    /// Space or tab characters
    Whitespace,
    /// A newline character.
    Newline,
    /// A break token consisting of at least two newline characters.
    Break,
    /// A line comment beginning with '%' and ending with the end of line.
    Comment,
    /// A numeric literal composed of digits and optional '_' separators.
    Integer,
    /// A float consisting of a sequence of digits, an optional decimal point, and an optional exponent.
    Float,
    /// A unit of measure, such as 'pt', 'cm', 'in', etc.
    Unit,
    /// A word composed of ascii alphabetic characters.
    AWord,
    /// A word composed of unicode alphabetic characters.
    UWord,
    /// An opening curly brace ('{').
    OpenBrace,
    /// A closing curly brace ('}').
    CloseBrace,
    /// An opening square bracket ('[').
    OpenBracket,
    /// A closing square bracket (']').
    CloseBracket,
    /// An opening parenthesis ('(').
    OpenParen,
    /// A closing parenthesis (')').
    CloseParen,
    /// An asterisk ('*').
    Star,
    /// A hash ('#') character.
    NumSign,
    /// A caret ('^') character.
    Carret,
    /// A less-than ('<') character.
    Less,
    /// A greater-than ('>') character.
    Greater,
    /// An underscore ('_') character.
    Underscore,
    /// A single quote ('\'') character.
    SingleApostrophe,
    /// A double quote ('"') character.
    DoubleApostrophe,
    /// A forward slash ('/') character.
    Slash,
    /// A tilde ('~') character.
    Tilde,
    /// A comma (',') character.
    Comma,
    /// A semicolon (';') character.
    Semicolon,
    /// An ampersand ('&') character.
    Ampersand,
    /// An equals ('=') character.
    Equal,
    /// A pipe ('|') character.
    Pipe,
    /// A colon (':') character.
    Colon,
    /// A dollar ('$') character.
    Dollar,
    /// A hyphen-minus ('-') character.
    Minus,
    /// A plus ('+') character.
    Plus,
    /// A period ('.') character.
    Period,
    /// An at ('@') character.
    At,
    /// A question mark ('?') character.
    Question,
    /// An exclamation mark ('!') character.
    Bang,
    /// '$$'
    MathDisplay,
    /// '::'
    PathSeparator,
    /// '->'
    RightArrow,
    /// '<-'
    LeftArrow,
    /// '<='
    LessEqual,
    /// '>='
    GreaterEqual,
    /// '!='
    NotEqual,
    /// '=='
    DoubleEqual,
    /// '+='
    PlusEqual,
    /// '-='
    MinusEqual,
    /// '*='
    MulEqual,
    /// '/='
    DivEqual,
    /// All other non unicode alphabetic characters.
    Symbol,
    /// Unicode escaped character sequence, eg. '\u{1F4A9}'. It may be cut short by the end
    /// of the input and is still reported under this kind.
    UnicodeEscape,
    /// A hash ('#') character followed by a digit or an identifier.
    MacroParameter,
    /// A token representing the end of the input stream.
    Eof,
}

impl Tombstone for LexToken {
    open spec fn tombstone_spec() -> LexToken {
        LexToken::Eof
    }

    fn tombstone() -> (t: LexToken) {
        LexToken::Eof
    }
}

impl LexToken {
    /// Position of the token kind in the declaration order above.
    #[verifier::allow_in_spec]
    pub fn ordinal(self) -> u8
        returns
            (match self {
                LexToken::CommandIdent => 0u8,
                LexToken::Command => 1u8,
                LexToken::VariableIdent => 2u8,
                LexToken::Variable => 3u8,
                LexToken::Whitespace => 4u8,
                LexToken::Newline => 5u8,
                LexToken::Break => 6u8,
                LexToken::Comment => 7u8,
                LexToken::Integer => 8u8,
                LexToken::Float => 9u8,
                LexToken::Unit => 10u8,
                LexToken::AWord => 11u8,
                LexToken::UWord => 12u8,
                LexToken::OpenBrace => 13u8,
                LexToken::CloseBrace => 14u8,
                LexToken::OpenBracket => 15u8,
                LexToken::CloseBracket => 16u8,
                LexToken::OpenParen => 17u8,
                LexToken::CloseParen => 18u8,
                LexToken::Star => 19u8,
                LexToken::NumSign => 20u8,
                LexToken::Carret => 21u8,
                LexToken::Less => 22u8,
                LexToken::Greater => 23u8,
                LexToken::Underscore => 24u8,
                LexToken::SingleApostrophe => 25u8,
                LexToken::DoubleApostrophe => 26u8,
                LexToken::Slash => 27u8,
                LexToken::Tilde => 28u8,
                LexToken::Comma => 29u8,
                LexToken::Semicolon => 30u8,
                LexToken::Ampersand => 31u8,
                LexToken::Equal => 32u8,
                LexToken::Pipe => 33u8,
                LexToken::Colon => 34u8,
                LexToken::Dollar => 35u8,
                LexToken::Minus => 36u8,
                LexToken::Plus => 37u8,
                LexToken::Period => 38u8,
                LexToken::At => 39u8,
                LexToken::Question => 40u8,
                LexToken::Bang => 41u8,
                LexToken::MathDisplay => 42u8,
                LexToken::PathSeparator => 43u8,
                LexToken::RightArrow => 44u8,
                LexToken::LeftArrow => 45u8,
                LexToken::LessEqual => 46u8,
                LexToken::GreaterEqual => 47u8,
                LexToken::NotEqual => 48u8,
                LexToken::DoubleEqual => 49u8,
                LexToken::PlusEqual => 50u8,
                LexToken::MinusEqual => 51u8,
                LexToken::MulEqual => 52u8,
                LexToken::DivEqual => 53u8,
                LexToken::Symbol => 54u8,
                LexToken::UnicodeEscape => 55u8,
                LexToken::MacroParameter => 56u8,
                LexToken::Eof => 57u8,
            }),
    {
        match self {
            LexToken::CommandIdent => 0,
            LexToken::Command => 1,
            LexToken::VariableIdent => 2,
            LexToken::Variable => 3,
            LexToken::Whitespace => 4,
            LexToken::Newline => 5,
            LexToken::Break => 6,
            LexToken::Comment => 7,
            LexToken::Integer => 8,
            LexToken::Float => 9,
            LexToken::Unit => 10,
            LexToken::AWord => 11,
            LexToken::UWord => 12,
            LexToken::OpenBrace => 13,
            LexToken::CloseBrace => 14,
            LexToken::OpenBracket => 15,
            LexToken::CloseBracket => 16,
            LexToken::OpenParen => 17,
            LexToken::CloseParen => 18,
            LexToken::Star => 19,
            LexToken::NumSign => 20,
            LexToken::Carret => 21,
            LexToken::Less => 22,
            LexToken::Greater => 23,
            LexToken::Underscore => 24,
            LexToken::SingleApostrophe => 25,
            LexToken::DoubleApostrophe => 26,
            LexToken::Slash => 27,
            LexToken::Tilde => 28,
            LexToken::Comma => 29,
            LexToken::Semicolon => 30,
            LexToken::Ampersand => 31,
            LexToken::Equal => 32,
            LexToken::Pipe => 33,
            LexToken::Colon => 34,
            LexToken::Dollar => 35,
            LexToken::Minus => 36,
            LexToken::Plus => 37,
            LexToken::Period => 38,
            LexToken::At => 39,
            LexToken::Question => 40,
            LexToken::Bang => 41,
            LexToken::MathDisplay => 42,
            LexToken::PathSeparator => 43,
            LexToken::RightArrow => 44,
            LexToken::LeftArrow => 45,
            LexToken::LessEqual => 46,
            LexToken::GreaterEqual => 47,
            LexToken::NotEqual => 48,
            LexToken::DoubleEqual => 49,
            LexToken::PlusEqual => 50,
            LexToken::MinusEqual => 51,
            LexToken::MulEqual => 52,
            LexToken::DivEqual => 53,
            LexToken::Symbol => 54,
            LexToken::UnicodeEscape => 55,
            LexToken::MacroParameter => 56,
            LexToken::Eof => 57,
        }
    }
}

} // verus!
