//! The type system and the type checker.

pub mod error;
pub mod rules;
pub mod typeinfer;
pub mod types;
pub mod laws;
