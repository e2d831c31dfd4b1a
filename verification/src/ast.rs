//! The syntax tree shared by every stage, and the types that annotate it.

pub mod tree;
pub mod prettyprint;
