//! The character-level tokenizer: it walks a text one grapheme cluster at a time and groups
//! the clusters into tokens.

pub mod cursor;
pub mod token;

pub use token::tokenize;
pub use token::Token;
pub use token::TokenKind;
