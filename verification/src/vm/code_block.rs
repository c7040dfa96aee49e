//! The code block: the compiled form of one function, and the entry points
//! that turn a code block into a function object and that call or construct
//! such an object.

use crate::environments::compile::CompileTimeEnvironmentRef;
use crate::environments::runtime::BindingLocator;
use crate::function::FormalParameterList;
use crate::function::ThisMode;
use crate::interner::Identifier;
use crate::value::JsValue;
use boa_interner::Sym;
use vstd::prelude::*;

verus! {

/// A handle to a code block on the heap.
#[derive(Clone, Copy, Debug, PartialEq, Eq, Structural)]
pub struct CodeBlockRef {
    pub index: usize,
}

/// The name of a private class element.
#[derive(Clone, Copy, Debug)]
pub struct PrivateName {
    pub description: Sym,
}

/// The compiled form of a function. Once the compiler has handed it to the
/// heap it does not change.
#[derive(Debug)]
pub struct CodeBlock {
    /// Name of this function.
    pub name: Sym,
    /// The function is an expression with a binding identifier.
    pub has_binding_identifier: bool,
    /// The number of arguments expected.
    pub length: u32,
    /// The function is in strict mode.
    pub strict: bool,
    /// The `[[ThisMode]]` internal slot.
    pub this_mode: ThisMode,
    /// The formal parameters.
    pub params: FormalParameterList,
    /// The bytecode.
    pub bytecode: Vec<u8>,
    /// The literals.
    pub literals: Vec<JsValue>,
    /// The property names.
    pub names: Vec<Identifier>,
    /// The private names.
    pub private_names: Vec<PrivateName>,
    /// The locators of all bindings in the code block.
    pub bindings: Vec<BindingLocator>,
    /// The number of bindings of the function environment.
    pub num_bindings: usize,
    /// The functions inside this function.
    pub functions: Vec<CodeBlockRef>,
    /// Where the `arguments` object is stored, if the function uses it.
    pub arguments_binding: Option<BindingLocator>,
    /// The compile-time environments of this function, innermost first.
    pub compile_environments: Vec<CompileTimeEnvironmentRef>,
    /// The `[[IsClassConstructor]]` internal slot.
    pub is_class_constructor: bool,
    /// The `[[ClassFieldInitializerName]]` internal slot.
    pub class_field_initializer_name: Option<Sym>,
    /// The place in the code where the function environment is pushed; it
    /// matters only for functions with expressions in their parameters.
    pub function_environment_push_location: u32,
    /// The number of bindings of the separate parameter environment, if the
    /// function has one.
    pub parameters_env_bindings: Option<usize>,
    /// Trace the execution of instructions.
    pub trace: bool,
}

impl CodeBlock {
    /// An empty code block with the given name, arity and strictness.
    pub fn new(name: Sym, length: u32, strict: bool) -> (code: Self)
        ensures
            code.name == name,
            code.length == length,
            code.strict == strict,
            !code.has_binding_identifier,
            code.this_mode == ThisMode::Global,
            code.params.parameters@.len() == 0,
            code.bytecode@.len() == 0,
            code.literals@.len() == 0,
            code.names@.len() == 0,
            code.private_names@.len() == 0,
            code.bindings@.len() == 0,
            code.num_bindings == 0,
            code.functions@.len() == 0,
            code.arguments_binding is None,
            code.compile_environments@.len() == 0,
            !code.is_class_constructor,
            code.class_field_initializer_name is None,
            code.function_environment_push_location == 0,
            code.parameters_env_bindings is None,
            !code.trace,
    {
        CodeBlock {
            bytecode: Vec::new(),
            literals: Vec::new(),
            names: Vec::new(),
            private_names: Vec::new(),
            bindings: Vec::new(),
            num_bindings: 0,
            functions: Vec::new(),
            name,
            has_binding_identifier: false,
            length,
            strict,
            this_mode: ThisMode::Global,
            params: FormalParameterList::new(),
            arguments_binding: None,
            compile_environments: Vec::new(),
            is_class_constructor: false,
            class_field_initializer_name: None,
            function_environment_push_location: 0,
            parameters_env_bindings: None,
            trace: false,
        }
    }

    /// The name of this code block.
    pub fn name(&self) -> (name: Sym)
        ensures
            name == self.name,
    {
        self.name
    }

    /// Switches the tracing of instructions on or off.
    pub fn set_trace(&mut self, value: bool)
        ensures
            *final(self) == (CodeBlock { trace: value, ..*old(self) }),
    {
        self.trace = value;
    }

    /// Reads an unsigned byte operand at `offset`.
    pub fn read_u8(&self, offset: usize) -> (value: u8)
        requires
            offset + 1 <= self.bytecode@.len(),
        ensures
            value == operand(self.bytecode@, offset as int, 1),
    {
        proof {
            reveal_with_fuel(operand, 2);
        }
        self.bytecode[offset]
    }

    /// Reads a signed byte operand at `offset`.
    pub fn read_i8(&self, offset: usize) -> (value: i8)
        requires
            offset + 1 <= self.bytecode@.len(),
        ensures
            value == signed(operand(self.bytecode@, offset as int, 1), 0x100),
    {
        let raw = self.read_u8(offset);
        if raw < 128 {
            raw as i8
        } else {
            (raw as i16 - 256) as i8
        }
    }

    /// Reads an unsigned 16-bit operand at `offset`.
    pub fn read_u16(&self, offset: usize) -> (value: u16)
        requires
            offset + 2 <= self.bytecode@.len(),
        ensures
            value == operand(self.bytecode@, offset as int, 2),
    {
        proof {
            reveal_with_fuel(operand, 3);
            assert(self.bytecode.len() <= usize::MAX);
        }
        self.bytecode[offset] as u16 + self.bytecode[offset + 1] as u16 * 256
    }

    /// Reads a signed 16-bit operand at `offset`.
    pub fn read_i16(&self, offset: usize) -> (value: i16)
        requires
            offset + 2 <= self.bytecode@.len(),
        ensures
            value == signed(operand(self.bytecode@, offset as int, 2), 0x1_0000),
    {
        let raw = self.read_u16(offset);
        if raw < 0x8000 {
            raw as i16
        } else {
            (raw as i32 - 0x1_0000) as i16
        }
    }

    /// Reads an unsigned 32-bit operand at `offset`.
    pub fn read_u32(&self, offset: usize) -> (value: u32)
        requires
            offset + 4 <= self.bytecode@.len(),
        ensures
            value == operand(self.bytecode@, offset as int, 4),
    {
        proof {
            reveal_with_fuel(operand, 5);
            assert(self.bytecode.len() <= usize::MAX);
        }
        self.bytecode[offset] as u32 + self.bytecode[offset + 1] as u32 * 0x100
            + self.bytecode[offset + 2] as u32 * 0x1_0000 + self.bytecode[offset + 3] as u32
            * 0x100_0000
    }

    /// Reads a signed 32-bit operand at `offset`.
    pub fn read_i32(&self, offset: usize) -> (value: i32)
        requires
            offset + 4 <= self.bytecode@.len(),
        ensures
            value == signed(operand(self.bytecode@, offset as int, 4), 0x1_0000_0000),
    {
        let raw = self.read_u32(offset);
        if raw < 0x8000_0000 {
            raw as i32
        } else {
            (raw as i64 - 0x1_0000_0000) as i32
        }
    }

    /// Reads an unsigned 64-bit operand at `offset`.
    pub fn read_u64(&self, offset: usize) -> (value: u64)
        requires
            offset + 8 <= self.bytecode@.len(),
        ensures
            value == operand(self.bytecode@, offset as int, 8),
    {
        proof {
            reveal_with_fuel(operand, 9);
            assert(self.bytecode.len() <= usize::MAX);
        }
        self.bytecode[offset] as u64 + self.bytecode[offset + 1] as u64 * 0x100
            + self.bytecode[offset + 2] as u64 * 0x1_0000 + self.bytecode[offset + 3] as u64
            * 0x100_0000 + self.bytecode[offset + 4] as u64 * 0x1_0000_0000 + self.bytecode[offset
            + 5] as u64 * 0x100_0000_0000 + self.bytecode[offset + 6] as u64 * 0x1_0000_0000_0000
            + self.bytecode[offset + 7] as u64 * 0x100_0000_0000_0000
    }

    /// Reads a signed 64-bit operand at `offset`.
    pub fn read_i64(&self, offset: usize) -> (value: i64)
        requires
            offset + 8 <= self.bytecode@.len(),
        ensures
            value == signed(operand(self.bytecode@, offset as int, 8), 0x1_0000_0000_0000_0000),
    {
        let raw = self.read_u64(offset);
        if raw < 0x8000_0000_0000_0000 {
            raw as i64
        } else {
            (raw as i128 - 0x1_0000_0000_0000_0000) as i64
        }
    }
}

/// The value of the operand of `size` bytes that starts at `offset`: the
/// bytes are its base-256 digits, the least significant first.
pub open spec fn operand(bytes: Seq<u8>, offset: int, size: nat) -> int
    decreases size,
{
    if size == 0 {
        0
    } else {
        bytes[offset] + 256 * operand(bytes, offset + 1, (size - 1) as nat)
    }
}

/// The value of an operand as a signed number in two's complement, where
/// `modulus` is the number of values that the operand can take.
pub open spec fn signed(value: int, modulus: int) -> int {
    if 2 * value < modulus {
        value
    } else {
        value - modulus
    }
}

} // verus!
