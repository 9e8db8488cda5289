//! Front end of a Solidity compiler: Yul parsing, recovery of control flow
//! from EVM assembly, and emission towards a code-generator sink.

pub mod build;
pub mod codec;
pub mod evm;
pub mod generator;
pub mod project;
pub mod solc;
pub mod text;
pub mod version;
pub mod yul;

pub use crate::yul::emit::statement::compile;
pub use crate::yul::parser::parse;
