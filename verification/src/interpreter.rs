//! The interpreter: a walk over the tree against a runtime environment.

pub mod env;
pub mod error;
pub mod value;
pub mod eval;
pub mod run;
pub mod laws;
