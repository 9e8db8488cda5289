//! An entry of the builder's worklist.

use vstd::prelude::*;

use crate::evm::ethereal_ir::stack::ElementView;
use crate::evm::ethereal_ir::stack::Stack;

verus! {

/// A block that is still to be visited, with the stack that it is entered
/// with.
#[derive(Debug, PartialEq, Eq)]
pub struct QueueElement {
    /// The tag of the block.
    pub tag: usize,
    /// The tag of the block that leads here, if any does.
    pub predecessor: Option<usize>,
    /// The stack on entry.
    pub stack: Stack,
}

/// The mathematical value of a [`QueueElement`].
pub ghost struct QueueElementView {
    pub tag: usize,
    pub predecessor: Option<usize>,
    pub stack: Seq<ElementView>,
}

impl View for QueueElement {
    type V = QueueElementView;

    open spec fn view(&self) -> QueueElementView {
        QueueElementView { tag: self.tag, predecessor: self.predecessor, stack: self.stack@ }
    }
}

impl QueueElement {
    /// The entry of the three parts.
    pub fn new(tag: usize, predecessor: Option<usize>, stack: Stack) -> (element: QueueElement)
        ensures
            element.tag == tag,
            element.predecessor == predecessor,
            element.stack == stack,
    {
        QueueElement { tag, predecessor, stack }
    }
}

} // verus!
