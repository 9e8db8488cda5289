//! The EVM assembly pipeline.

pub mod assembly;
pub mod error;
pub mod ethereal_ir;
pub mod instruction;
pub mod mapping;
