//! The state-machine tokenizer.

pub mod definition;
pub mod infra;
pub mod tables;
pub mod token;
