//! The front end of a small interpreted language: a tokenizer that turns
//! source text into classified tokens, and a parser that assembles `let` and
//! `return` statements from them.
//!
//! `scan` and `grammar` say in mathematical terms what tokenizing and parsing
//! compute; `lexer` and `parser` hold the executable code, proved against
//! them.

pub mod ast;
pub mod grammar;
pub mod lexer;
pub mod parser;
pub mod scan;
pub mod token;
