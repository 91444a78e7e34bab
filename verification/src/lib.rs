//! A small dynamically typed expression language: integers, booleans, text,
//! sequences, maps, closures and a handful of native functions.
//!
//! A source text is cut into tokens ([`lex`]), parsed into syntax nodes
//! ([`parse`]) and evaluated node by node against an environment
//! ([`eval`]). Hosts run source texts through [`entry`] and keep an [`Env`]
//! between them.
//!
//! Every type has a mathematical model, and every function is proved to do
//! what a specification over these models says: the lexer against
//! `lex::lexer::scan`, the parser against `parse::grammar`, the evaluator
//! against `eval::semantics`. What holds of every program is proved in
//! `eval::laws`.

pub mod support;
pub mod lex;
pub mod parse;
pub mod eval;
pub mod embed;

pub use embed::{entry, Env, EnvBuilder, Error, Result, Value};
