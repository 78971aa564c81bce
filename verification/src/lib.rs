//! A minimal arithmetic expression front end: a lexer that turns a string
//! into positioned tokens, a precedence-climbing parser that builds an
//! abstract syntax tree, and an evaluator that folds the tree to a single
//! 64-bit integer.

pub mod ast;
pub mod evaluator;
pub mod lexer;
pub mod parser;
