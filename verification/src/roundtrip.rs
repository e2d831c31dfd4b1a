//! Reading back what was printed: programs in the form that the printer
//! and the parser agree on read back as themselves, and what is parsed has
//! that form but for its numbers, its quoted characters and its groups in
//! parentheses.

pub mod canon;
pub mod tokens;
pub mod types;
pub mod exprs;
pub mod programs;
pub mod layout;
pub mod indent;
pub mod pieces;
pub mod printed;
pub mod laws;
pub mod printed_programs;
pub mod shape;
