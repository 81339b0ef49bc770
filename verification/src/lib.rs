//! Front end of a small interpreted language: a lexer over source text, a
//! Pratt (precedence-climbing) parser with statement-boundary error recovery,
//! a canonical fully parenthesized renderer, and a tree-walking evaluator
//! over a closed set of runtime values.

pub mod ast;
pub mod environment;
pub mod eval_error;
pub mod evaluator;
pub mod laws;
pub mod lexedtokens;
pub mod lexer;
pub mod numbers;
pub mod object;
pub mod parse_errors;
pub mod parser;
pub mod render;
pub mod test_util;
pub mod token;
