//! A front end for the Lox expression language: a scanner that turns source
//! text into positioned tokens, and a recursive-descent parser that turns
//! tokens into an expression tree. Every function carries a contract over a
//! mathematical model of its data, and every contract is machine-checked.

pub mod frontend;
pub mod laws;
pub mod lox;
pub mod result;
pub mod text;
