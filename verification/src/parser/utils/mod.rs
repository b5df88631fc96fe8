//! Small helpers of the parser stages.

pub mod peek;
pub mod utils;
