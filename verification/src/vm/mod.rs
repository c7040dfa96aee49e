//! The virtual machine's state: the environment stack, the operand stack,
//! the call frames and the function that is running.

pub mod code_block;
pub mod construct;
pub mod function_object;
pub mod call;
pub mod prologue;

use crate::environments::runtime::DeclarativeEnvironmentStack;
use crate::value::JsObject;
use crate::value::JsValue;
use crate::vm::code_block::CodeBlockRef;
use vstd::prelude::*;

verus! {

/// The promise that an `async` function resolves when it finishes.
#[derive(Clone, Copy, Debug, PartialEq, Eq, Structural)]
pub struct PromiseCapability {
    pub promise: JsObject,
}

impl PromiseCapability {
    /// The promise of this capability.
    pub fn promise(&self) -> (promise: &JsObject)
        ensures
            *promise == self.promise,
    {
        &self.promise
    }
}

/// One activation of a code block.
#[derive(Clone, Copy, Debug, PartialEq, Eq, Structural)]
pub struct CallFrame {
    pub code_block: CodeBlockRef,
    pub pc: u32,
    pub param_count: usize,
    pub arg_count: usize,
    pub promise_capability: Option<PromiseCapability>,
    pub async_generator: Option<JsObject>,
}

impl CallFrame {
    /// A frame at the start of the given code block.
    pub fn new(code_block: CodeBlockRef) -> (frame: Self)
        ensures
            frame == (CallFrame {
                code_block,
                pc: 0,
                param_count: 0,
                arg_count: 0,
                promise_capability: None,
                async_generator: None,
            }),
    {
        CallFrame {
            code_block,
            pc: 0,
            param_count: 0,
            arg_count: 0,
            promise_capability: None,
            async_generator: None,
        }
    }

    /// The same frame with the given number of formal parameters.
    pub fn with_param_count(self, count: usize) -> (frame: Self)
        ensures
            frame == (CallFrame { param_count: count, ..self }),
    {
        CallFrame { param_count: count, ..self }
    }

    /// The same frame with the given number of arguments.
    pub fn with_arg_count(self, count: usize) -> (frame: Self)
        ensures
            frame == (CallFrame { arg_count: count, ..self }),
    {
        CallFrame { arg_count: count, ..self }
    }
}

/// The state of the virtual machine.
#[derive(Debug)]
pub struct Vm {
    pub frames: Vec<CallFrame>,
    pub stack: Vec<JsValue>,
    pub environments: DeclarativeEnvironmentStack,
    pub active_function: Option<JsObject>,
}

impl Vm {
    /// Pushes a call frame.
    pub fn push_frame(&mut self, frame: CallFrame)
        ensures
            final(self).frames@ == old(self).frames@.push(frame),
            final(self).stack == old(self).stack,
            final(self).environments == old(self).environments,
            final(self).active_function == old(self).active_function,
    {
        self.frames.push(frame);
    }

    /// Pops the innermost call frame, if there is one.
    pub fn pop_frame(&mut self) -> (frame: Option<CallFrame>)
        ensures
            old(self).frames@.len() > 0 ==> frame == Some(old(self).frames@.last())
                && final(self).frames@ == old(self).frames@.drop_last(),
            old(self).frames@.len() == 0 ==> frame is None && final(self).frames@ == old(
                self,
            ).frames@,
            final(self).stack == old(self).stack,
            final(self).environments == old(self).environments,
            final(self).active_function == old(self).active_function,
    {
        self.frames.pop()
    }
}

} // verus!
