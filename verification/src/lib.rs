//! Front end of a small expression-oriented language: a lexer that turns
//! source text into tokens, a precedence-climbing parser that builds an
//! abstract syntax tree, and a scope-chained bidirectional type checker that
//! annotates every node with a type or rejects the program with span-located
//! diagnostics.

pub mod ast;
pub mod checker;
pub mod errors;
pub mod expression;
pub mod laws;
pub mod lexer;
pub mod module;
pub mod parser;
pub mod peeker;
pub mod precedence;
pub mod scope;
pub mod span;
pub mod text;
pub mod token;
