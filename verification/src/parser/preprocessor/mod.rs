//! The preprocessor, which finds out how many arguments the commands and environments
//! defined in a text take.

pub mod errors;
