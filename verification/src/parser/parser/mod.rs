//! The parser over the tokens of the state-machine tokenizer: it records the events from
//! which a syntax tree is built.

pub mod infra;
pub mod parser;
pub mod token_set;
