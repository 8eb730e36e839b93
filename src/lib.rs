//! A single-pass compiler front end for a small imperative language: a lexer,
//! a lookahead buffer over the token stream, and a recursive-descent parser
//! that emits a three-address intermediate representation as it goes.

pub mod token;
pub mod window;
pub mod lexer;
pub mod text;
pub mod ir;
pub mod grammar;
pub mod parser;
pub mod laws;
