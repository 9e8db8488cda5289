//! The emission of the syntax tree of Yul.

pub mod expression;
pub mod model;
pub mod statement;
