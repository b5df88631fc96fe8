//! The preparse classifier: it turns the tokens of a text into syntax tokens with their
//! byte offsets, marks the definitions among them and records malformed names.

pub mod conversion;
pub mod converter;
pub mod errors;
pub mod lexed_str;

pub use errors::{PreparseError, PreparseErrorKind};
pub use lexed_str::{Definition, DefinitionKind, IndexRange, LexedStr, LexerIter, SyntaxToken};
