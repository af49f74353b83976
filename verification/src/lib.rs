//! Front end for a small expression language: a character-level lexer that
//! turns source text into a flat token stream, and a recursive-descent parser
//! that turns that stream into an expression tree.
pub mod expr;
pub mod lexer;
pub mod parser;
pub mod token;
