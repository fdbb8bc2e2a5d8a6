//! The declarative pipeline language: syntax tree, grammar, and parser.

pub mod ast;
pub mod grammar;
pub mod parser;
