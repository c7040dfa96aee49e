//! The execution core of a JavaScript engine: the lexical environment
//! runtime, the bytecode function record and the machinery that enters
//! functions by call, by construction and through `eval`.
//!
//! Everything that lives on the garbage collected heap is reached through
//! small copyable handles into a [`heap::Heap`]; two handles are the same
//! object exactly when they are equal.
//!
//! Parsing, compiling and running bytecode are not part of this crate. The
//! entry points that need them stop and hand a request to their caller, who
//! performs it and resumes with the outcome.

pub mod builtins;
pub mod context;
pub mod declaration;
pub mod environments;
pub mod error;
pub mod function;
pub mod heap;
pub mod interner;
pub mod object;
pub mod property;
pub mod realm;
pub mod value;
pub mod vm;
