//! The built-in objects that the execution core creates or enters itself.

pub mod arguments;
pub mod eval;
