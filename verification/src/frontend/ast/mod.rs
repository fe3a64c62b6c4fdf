//! The syntax tree.

pub mod expr;
