//! Realms: a global object, a global environment and a set of intrinsics.

use crate::environments::runtime::DeclarativeEnvironmentRef;
use crate::value::JsObject;
use vstd::prelude::*;

verus! {

/// A handle to a realm on the heap.
#[derive(Clone, Copy, Debug, PartialEq, Eq, Structural)]
pub struct Realm {
    pub index: usize,
}

/// The intrinsic objects of a realm that this crate links new objects to.
#[derive(Clone, Copy, Debug, PartialEq, Eq, Structural)]
pub struct Intrinsics {
    /// `%Object.prototype%`.
    pub object_prototype: JsObject,
    /// `%Function.prototype%`.
    pub function_prototype: JsObject,
    /// `%AsyncFunction.prototype%`.
    pub async_function_prototype: JsObject,
    /// `%GeneratorFunction.prototype%`.
    pub generator_function_prototype: JsObject,
    /// `%AsyncGeneratorFunction.prototype%`.
    pub async_generator_function_prototype: JsObject,
    /// `%GeneratorFunction.prototype.prototype%`.
    pub generator: JsObject,
    /// `%AsyncGeneratorFunction.prototype.prototype%`.
    pub async_generator: JsObject,
    /// `%Promise.prototype%`.
    pub promise_prototype: JsObject,
    /// `%eval%`.
    pub eval: JsObject,
}

/// What a realm holds.
#[derive(Clone, Copy, Debug, PartialEq, Eq, Structural)]
pub struct RealmRecord {
    pub intrinsics: Intrinsics,
    pub global_object: JsObject,
    pub environment: DeclarativeEnvironmentRef,
}

} // verus!
