//! Environments: what the compiler knows of a scope, and the values that the
//! scope holds while code runs.

pub mod compile;
pub mod resolver;
pub mod runtime;
pub mod stack;
