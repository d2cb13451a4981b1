//! A verified front end for a restricted C-like language: a lexer that turns
//! source text into a token sequence, and a recursive-descent parser that
//! turns the token sequence into an abstract syntax tree.
//!
//! Both stages are specified by ghost functions (`lex_spec`, `spec_parse`)
//! that define the exact token sequence and tree for every input, and the
//! executable code is proved to return precisely those results.

pub mod ast;
pub mod lexer;
pub mod parser;
pub mod token;
