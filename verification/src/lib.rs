//! Front end of a TeX-dialect source processor.
//!
//! A text is cut into tokens ([`lexer`]), the tokens are classified into syntax tokens with
//! their byte offsets ([`parser::preparse`]), and the definitions of commands and
//! environments among them are resolved: their arguments are read and every token of their
//! bodies that refers to a parameter is indexed ([`parser::expansion`]). A second
//! tokenizer, a state machine over the characters of the text ([`parser::lexer`]), feeds
//! the parser that records the events of a syntax tree ([`parser::parser`]).
//!
//! Every token refers to the text by byte offsets; no stage copies text.

pub mod collections;
pub mod lexer;
pub mod parser;
pub mod span;
pub mod text;
pub mod unicode;
