//! The front end: from source text to tokens, from tokens to a syntax tree.

pub mod lexer;
pub mod matching;
pub mod parser;
pub mod scanner;
pub mod syntax;
pub mod text;
