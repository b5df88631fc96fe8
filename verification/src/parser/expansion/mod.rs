//! Definitions of macros and environments: how they are resolved and stored.

pub mod errors;
pub mod expanded;
pub mod resexp_parser;
pub mod resolver;
pub mod resolving;
pub mod store;
