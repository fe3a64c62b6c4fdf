//! Token model, keyword table, scanner, syntax tree and parser.

pub mod ast;
pub mod grammar;
pub mod grammar_laws;
pub mod keywords;
pub mod lexis;
pub mod lexis_laws;
pub mod parser;
pub mod scanner;
pub mod token;
