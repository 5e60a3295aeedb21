//! The work behind each command, free of input and output.

pub mod config;
pub mod log;
pub mod start;
