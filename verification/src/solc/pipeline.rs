//! The pipelines of the compiler.

use vstd::prelude::*;

verus! {

/// Which of the outputs of the Solidity compiler a project is made of.
#[allow(clippy::upper_case_acronyms)]
#[derive(Debug, Clone, Copy, PartialEq, Eq, Hash, Structural)]
pub enum Pipeline {
    /// The Yul intermediate representation.
    Yul,
    /// The EVM assembly.
    EVM,
}

} // verus!
