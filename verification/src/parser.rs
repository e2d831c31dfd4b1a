//! From source text to a syntax tree: the scanner and the parser.

pub mod constants;
pub mod error;
pub mod tokens;
pub mod scanner;
pub mod grammar;
pub mod parser;
pub mod progress;
pub mod locate;
pub mod laws;
pub mod stream;
