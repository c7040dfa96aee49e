//! Declarations of the syntax tree that the execution core names.

pub mod import;
