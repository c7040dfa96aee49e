//! Runtime environments: the values that scopes hold while code runs, and
//! the stack of the scopes that are active.

use crate::context::Context;
use crate::environments::compile::CompileTimeEnvironmentRef;
use crate::error::JsNativeError;
use crate::heap::Heap;
use crate::interner::resolve_name;
use crate::interner::interner_texts;
use crate::interner::interner_strings;
use crate::interner::Identifier;
use crate::value::JsObject;
use crate::value::JsValue;
use vstd::prelude::*;
use vstd::string::*;

verus! {

/// A handle to a declarative environment on the heap.
#[derive(Clone, Copy, Debug, PartialEq, Eq, Structural)]
pub struct DeclarativeEnvironmentRef {
    pub index: usize,
}

/// The status of the `this` binding of a function environment.
#[derive(Clone, Copy, Debug, PartialEq, Eq, Structural)]
pub enum ThisBindingStatus {
    /// The function has no `this` of its own (an arrow function).
    Lexical,
    /// `this` is bound.
    Initialized,
    /// `this` is not bound yet (a derived constructor before `super()`).
    Uninitialized,
}

/// The internal slots of a function environment.
#[derive(Clone, Copy, Debug, PartialEq, Eq, Structural)]
pub struct FunctionSlots {
    /// The `[[ThisValue]]` internal slot.
    pub this: JsValue,
    /// The `[[ThisBindingStatus]]` internal slot.
    pub this_binding_status: ThisBindingStatus,
    /// The `[[FunctionObject]]` internal slot.
    pub function_object: JsObject,
    /// The `[[NewTarget]]` internal slot.
    pub new_target: Option<JsObject>,
}

/// The internal slot data that a declarative environment can hold.
#[derive(Clone, Copy, Debug, PartialEq, Eq, Structural)]
pub enum EnvironmentSlots {
    /// The environment of a function body.
    Function(FunctionSlots),
    /// The global environment.
    Global,
}

/// A declarative environment: one optional value per binding. A binding
/// without a value is not initialized yet.
#[derive(Debug)]
pub struct DeclarativeEnvironment {
    pub bindings: Vec<Option<JsValue>>,
    pub compile: CompileTimeEnvironmentRef,
    /// Set once a direct `eval` may have added bindings that the compiler
    /// did not know of.
    pub poisoned: bool,
    /// Set when the environment stands inside a `with` statement.
    pub with: bool,
    pub slots: Option<EnvironmentSlots>,
}

/// The mathematical value of a declarative environment.
pub struct EnvironmentView {
    pub bindings: Seq<Option<JsValue>>,
    pub compile: CompileTimeEnvironmentRef,
    pub poisoned: bool,
    pub with: bool,
    pub slots: Option<EnvironmentSlots>,
}

impl View for DeclarativeEnvironment {
    type V = EnvironmentView;

    open spec fn view(&self) -> EnvironmentView {
        EnvironmentView {
            bindings: self.bindings@,
            compile: self.compile,
            poisoned: self.poisoned,
            with: self.with,
            slots: self.slots,
        }
    }
}

/// A runtime environment.
#[derive(Clone, Copy, Debug, PartialEq, Eq, Structural)]
pub enum Environment {
    /// A declarative environment.
    Declarative(DeclarativeEnvironmentRef),
    /// An object environment, pushed by a `with` statement.
    Object(JsObject),
}

/// The stack of the environments that are active.
#[derive(Debug)]
pub struct DeclarativeEnvironmentStack {
    pub stack: Vec<Environment>,
}

/// The message of the error raised when `this` is read before `super()` has
/// bound it.
pub open spec fn uninitialized_this_message() -> Seq<char> {
    "Must call super constructor in derived class before accessing 'this' or returning from derived constructor"@
}

impl EnvironmentSlots {
    /// The slots, if they are those of a function environment.
    pub open spec fn spec_as_function_slots(self) -> Option<FunctionSlots> {
        match self {
            EnvironmentSlots::Function(slots) => Some(slots),
            EnvironmentSlots::Global => None,
        }
    }

    /// The slots, if they are those of a function environment.
    pub fn as_function_slots(&self) -> (slots: Option<&FunctionSlots>)
        ensures
            match slots {
                Some(s) => self.spec_as_function_slots() == Some(*s),
                None => self.spec_as_function_slots() is None,
            },
    {
        match self {
            EnvironmentSlots::Function(slots) => Some(slots),
            EnvironmentSlots::Global => None,
        }
    }

    /// Whether an environment with these slots provides a `this` binding:
    /// the global environment does, and so does a function environment
    /// whose `this` is not lexical.
    pub open spec fn provides_this(self) -> bool {
        match self {
            EnvironmentSlots::Function(slots) => slots.spec_has_this_binding(),
            EnvironmentSlots::Global => true,
        }
    }
}

impl FunctionSlots {
    /// The `[[FunctionObject]]` internal slot.
    pub fn function_object(&self) -> (object: &JsObject)
        ensures
            *object == self.function_object,
    {
        &self.function_object
    }

    /// The `[[NewTarget]]` internal slot.
    pub fn new_target(&self) -> (target: Option<&JsObject>)
        ensures
            match target {
                Some(t) => self.new_target == Some(*t),
                None => self.new_target is None,
            },
    {
        self.new_target.as_ref()
    }

    /// `BindThisValue`: binds `this` to the given object, unless it is bound
    /// already. Returns whether the binding was made.
    pub fn bind_this_value(&mut self, this: &JsObject) -> (bound: bool)
        requires
            old(self).this_binding_status != ThisBindingStatus::Lexical,
        ensures
            bound == (old(self).this_binding_status == ThisBindingStatus::Uninitialized),
            bound ==> *final(self) == (FunctionSlots {
                this: JsValue::Object(*this),
                this_binding_status: ThisBindingStatus::Initialized,
                ..*old(self)
            }),
            !bound ==> *final(self) == *old(self),
    {
        if self.this_binding_status == ThisBindingStatus::Initialized {
            return false;
        }
        self.this = JsValue::Object(*this);
        self.this_binding_status = ThisBindingStatus::Initialized;
        true
    }

    /// `HasThisBinding`: whether the environment has a `this` of its own.
    pub open spec fn spec_has_this_binding(self) -> bool {
        self.this_binding_status != ThisBindingStatus::Lexical
    }

    /// `HasThisBinding`: whether the environment has a `this` of its own.
    pub fn has_this_binding(&self) -> (b: bool)
        ensures
            b == self.spec_has_this_binding(),
    {
        self.this_binding_status != ThisBindingStatus::Lexical
    }

    /// `HasSuperBinding`: whether the environment has a `super` binding,
    /// which is the case when `this` is not lexical and the function object
    /// has a home object.
    pub open spec fn spec_has_super_binding(self, heap: Heap) -> bool {
        self.this_binding_status != ThisBindingStatus::Lexical
            && heap.function(self.function_object).kind.spec_home_object() is Some
    }

    /// `HasSuperBinding`: whether the environment has a `super` binding.
    pub fn has_super_binding(&self, heap: &Heap) -> (b: bool)
        requires
            heap.is_function(self.function_object),
        ensures
            b == self.spec_has_super_binding(*heap),
    {
        if self.this_binding_status == ThisBindingStatus::Lexical {
            return false;
        }
        heap.function_of(&self.function_object).get_home_object().is_some()
    }

    /// `GetThisBinding`: the value of `this`, or a `ReferenceError` while it
    /// is not bound.
    pub fn get_this_binding(&self) -> (result: Result<&JsValue, JsNativeError>)
        requires
            self.this_binding_status != ThisBindingStatus::Lexical,
        ensures
            self.this_binding_status == ThisBindingStatus::Initialized ==> result == Ok::<
                &JsValue,
                JsNativeError,
            >(&self.this),
            self.this_binding_status == ThisBindingStatus::Uninitialized ==> result is Err
                && result.unwrap_err().is(
                crate::error::JsNativeErrorKind::Reference,
                uninitialized_this_message(),
            ) && result.unwrap_err().realm is None,
    {
        if self.this_binding_status == ThisBindingStatus::Uninitialized {
            Err(
                JsNativeError::reference().with_message(
                    String::from_str(
                        "Must call super constructor in derived class before accessing 'this' or returning from derived constructor",
                    ),
                ),
            )
        } else {
            Ok(&self.this)
        }
    }
}

impl DeclarativeEnvironment {
    /// The compile-time environment of this environment.
    pub fn compile_env(&self) -> (compile: CompileTimeEnvironmentRef)
        ensures
            compile == self.compile,
    {
        self.compile
    }

    /// The bindings of this environment.
    pub fn bindings(&self) -> (bindings: &Vec<Option<JsValue>>)
        ensures
            *bindings == self.bindings,
    {
        &self.bindings
    }

    /// The internal slot data of this environment.
    pub fn slots(&self) -> (slots: Option<&EnvironmentSlots>)
        ensures
            match slots {
                Some(s) => self.slots == Some(*s),
                None => self.slots is None,
            },
    {
        self.slots.as_ref()
    }

    /// The value of the binding at `index`, which must be initialized.
    pub fn get(&self, index: usize) -> (value: JsValue)
        requires
            index < self.bindings@.len(),
            self.bindings@[index as int] is Some,
        ensures
            Some(value) == self.bindings@[index as int],
    {
        match self.bindings[index] {
            Some(value) => value,
            None => JsValue::Undefined,
        }
    }

    /// Overwrites the value of the binding at `index`, which must be
    /// initialized.
    pub fn set(&mut self, index: usize, value: JsValue)
        requires
            index < old(self).bindings@.len(),
            old(self).bindings@[index as int] is Some,
        ensures
            final(self).bindings@ == old(self).bindings@.update(index as int, Some(value)),
            final(self).compile == old(self).compile,
            final(self).poisoned == old(self).poisoned,
            final(self).with == old(self).with,
            final(self).slots == old(self).slots,
    {
        self.bindings[index] = Some(value);
    }
}

impl Environment {
    /// The declarative environment, if this is one.
    pub open spec fn spec_as_declarative(self) -> Option<DeclarativeEnvironmentRef> {
        match self {
            Environment::Declarative(env) => Some(env),
            Environment::Object(_) => None,
        }
    }

    /// The declarative environment, if this is one.
    pub fn as_declarative(&self) -> (env: Option<DeclarativeEnvironmentRef>)
        ensures
            env == self.spec_as_declarative(),
    {
        match self {
            Environment::Declarative(env) => Some(*env),
            Environment::Object(_) => None,
        }
    }

    /// The declarative environment; the environment must be one.
    pub fn declarative_expect(&self) -> (env: DeclarativeEnvironmentRef)
        requires
            *self is Declarative,
        ensures
            *self == Environment::Declarative(env),
    {
        match self {
            Environment::Declarative(env) => *env,
            Environment::Object(_) => DeclarativeEnvironmentRef { index: 0 },
        }
    }
}

/// A binding locator holds what is needed to find a binding at runtime. The
/// compiler creates it; the resolver may retarget it.
#[derive(Clone, Copy, Debug, PartialEq, Eq, Hash)]
pub struct BindingLocator {
    pub name: Identifier,
    pub environment_index: usize,
    pub binding_index: usize,
    pub global: bool,
    pub mutate_immutable: bool,
    pub silent: bool,
}

/// The message of the error raised on a write to an immutable binding with
/// the given printed name.
pub open spec fn mutate_immutable_message(name: Seq<char>) -> Seq<char> {
    "cannot mutate an immutable binding '"@ + name + "'"@
}

impl BindingLocator {
    /// The locator of a declarative binding with known indices.
    pub open spec fn spec_declarative(
        name: Identifier,
        environment_index: usize,
        binding_index: usize,
    ) -> Self {
        BindingLocator {
            name,
            environment_index,
            binding_index,
            global: false,
            mutate_immutable: false,
            silent: false,
        }
    }

    /// The locator of a declarative binding with known indices.
    #[verifier::when_used_as_spec(spec_declarative)]
    pub fn declarative(name: Identifier, environment_index: usize, binding_index: usize) -> (locator:
        Self)
        ensures
            locator == Self::spec_declarative(name, environment_index, binding_index),
    {
        BindingLocator {
            name,
            environment_index,
            binding_index,
            global: false,
            mutate_immutable: false,
            silent: false,
        }
    }

    /// The locator of a binding on the global object.
    pub fn global(name: Identifier) -> (locator: Self)
        ensures
            locator == (BindingLocator {
                name,
                environment_index: 0,
                binding_index: 0,
                global: true,
                mutate_immutable: false,
                silent: false,
            }),
    {
        BindingLocator {
            name,
            environment_index: 0,
            binding_index: 0,
            global: true,
            mutate_immutable: false,
            silent: false,
        }
    }

    /// The locator that stands for a write to an immutable binding; using it
    /// raises a `TypeError`.
    pub fn mutate_immutable(name: Identifier) -> (locator: Self)
        ensures
            locator == (BindingLocator {
                name,
                environment_index: 0,
                binding_index: 0,
                global: false,
                mutate_immutable: true,
                silent: false,
            }),
    {
        BindingLocator {
            name,
            environment_index: 0,
            binding_index: 0,
            global: false,
            mutate_immutable: true,
            silent: false,
        }
    }

    /// The locator of a write that is silently dropped.
    pub fn silent(name: Identifier) -> (locator: Self)
        ensures
            locator == (BindingLocator {
                name,
                environment_index: 0,
                binding_index: 0,
                global: false,
                mutate_immutable: false,
                silent: true,
            }),
    {
        BindingLocator {
            name,
            environment_index: 0,
            binding_index: 0,
            global: false,
            mutate_immutable: false,
            silent: true,
        }
    }

    /// The name of the binding.
    pub fn name(&self) -> (name: Identifier)
        ensures
            name == self.name,
    {
        self.name
    }

    /// Whether the binding is on the global object.
    pub fn is_global(&self) -> (b: bool)
        ensures
            b == self.global,
    {
        self.global
    }

    /// The index of the binding's environment on the stack.
    pub fn environment_index(&self) -> (index: usize)
        ensures
            index == self.environment_index,
    {
        self.environment_index
    }

    /// The index of the binding in its environment.
    pub fn binding_index(&self) -> (index: usize)
        ensures
            index == self.binding_index,
    {
        self.binding_index
    }

    /// Whether writes through this locator are silently dropped.
    pub fn is_silent(&self) -> (b: bool)
        ensures
            b == self.silent,
    {
        self.silent
    }

    /// Raises a `TypeError` that names the binding if this locator stands
    /// for a write to an immutable binding. The interner must hold the name.
    pub fn throw_mutate_immutable(&self, context: &Context) -> (result: Result<(), JsNativeError>)
        requires
            self.mutate_immutable ==> interner_strings(context.interner).contains_key(
                self.name.index(),
            ),
        ensures
            !self.mutate_immutable ==> result is Ok,
            self.mutate_immutable ==> result is Err && result.unwrap_err().is(
                crate::error::JsNativeErrorKind::Type,
                mutate_immutable_message(
                    interner_texts(context.interner)[self.name.index()],
                ),
            ) && result.unwrap_err().realm is None,
    {
        if self.mutate_immutable {
            let name = resolve_name(&context.interner, self.name.sym());
            let mut message = String::from_str("cannot mutate an immutable binding '");
            match name {
                Some(name) => {
                    message.append(name.text.as_str());
                },
                None => {},
            }
            message.append("'");
            Err(JsNativeError::typ().with_message(message))
        } else {
            Ok(())
        }
    }
}

} // verus!
