//! The stages that follow the character-level tokenizer.

pub mod expansion;
pub mod lexer;
pub mod outline;
pub mod parser;
pub mod preparse;
pub mod preprocessor;
pub mod syntax;
pub mod utils;

pub use syntax::SyntaxKind;
