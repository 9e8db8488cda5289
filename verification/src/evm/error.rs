//! The failures of the EVM assembly pipeline.

use vstd::prelude::*;

verus! {

/// Why a listing could not be lowered.
#[derive(Debug, Clone, Copy, PartialEq, Eq, Structural)]
pub enum Error {
    /// A jump or a label leads to a tag that no block declares.
    UndeclaredBlock(usize),
    /// A `JUMP` or `JUMPI` found no tag on top of the stack: the control flow
    /// of the listing cannot be recovered.
    MalformedControlFlow,
    /// A `SWAP` or `DUP` reaches below the bottom of the stack.
    StackUnderflow,
    /// The immediate of a `PUSH_Tag` or a `Tag` is no decimal number that fits
    /// a machine word.
    InvalidTag,
    /// A function is emitted that was not declared.
    UndeclaredFunction,
    /// A snapshot is deeper than the stack of its function, or a function
    /// has more clones than can be counted.
    StackOverflow,
}

} // verus!
