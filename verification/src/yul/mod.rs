//! The Yul pipeline.

pub mod emit;
pub mod error;
pub mod lexer;
pub mod parser;
