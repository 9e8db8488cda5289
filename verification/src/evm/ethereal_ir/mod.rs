//! The Ethereal IR: the control-flow graph recovered from a listing.

pub mod block;
pub mod dump;
pub mod emit;
pub mod function;
pub mod queue_element;
pub mod segment;
pub mod stack;
pub mod translate;
pub mod visited_element;
