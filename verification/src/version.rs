//! The version of the Solidity compiler that produced the input.

use vstd::prelude::*;

verus! {

/// A compiler version: major, minor and patch number.
#[derive(Debug, Clone, Copy, PartialEq, Eq, Hash, Structural)]
pub struct Version {
    pub major: u64,
    pub minor: u64,
    pub patch: u64,
}

impl Version {
    /// The version of the three numbers.
    pub fn new(major: u64, minor: u64, patch: u64) -> (version: Version)
        ensures
            version == (Version { major, minor, patch }),
    {
        Version { major, minor, patch }
    }
}

/// The part of a contract that a function belongs to.
#[derive(Debug, Clone, Copy, PartialEq, Eq, Hash, Structural)]
pub enum CodeType {
    /// The code that runs once, when the contract is constructed.
    Deploy,
    /// The code that the deploy code installs.
    Runtime,
}

} // verus!
