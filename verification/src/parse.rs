//! Syntax: from tokens to syntax nodes.

pub mod ast;
pub mod error;
pub mod grammar;
pub mod progress;
pub mod parser;
