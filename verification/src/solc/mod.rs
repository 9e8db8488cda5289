//! What the Solidity compiler hands over, and what is made of it.

pub mod output;
pub mod pipeline;
