//! The emission: the operations that the code-generator sink is asked for.

pub mod context;
pub mod intrinsic;
pub mod operation;
