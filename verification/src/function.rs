//! Function objects: what a callable object holds besides its properties.

use crate::environments::runtime::DeclarativeEnvironmentStack;
use crate::interner::Identifier;
use crate::realm::Realm;
use crate::value::JsObject;
use crate::value::JsString;
use crate::vm::code_block::CodeBlockRef;
use thin_vec::ThinVec;
use vstd::prelude::*;

verus! {

/// The vector type of the `thin_vec` crate.
#[verifier::external_type_specification]
#[verifier::external_body]
#[verifier::reject_recursive_types(T)]
pub struct ExThinVec<T>(ThinVec<T>);

/// How a function binds `this`.
#[derive(Clone, Copy, Debug, PartialEq, Eq, Structural)]
pub enum ThisMode {
    /// `this` is that of the enclosing function (an arrow function).
    Lexical,
    /// `this` is used exactly as passed.
    Strict,
    /// `null` and `undefined` become the global object, and primitives are
    /// wrapped.
    Global,
}

/// Whether a constructor is a base or a derived one.
#[derive(Clone, Copy, Debug, PartialEq, Eq, Structural)]
pub enum ConstructorKind {
    /// A function or a class without `extends`.
    Base,
    /// A class with `extends`.
    Derived,
}

impl ConstructorKind {
    /// Whether this is the kind of a base constructor.
    pub fn is_base(&self) -> (b: bool)
        ensures
            b == (*self == ConstructorKind::Base),
    {
        matches!(self, ConstructorKind::Base)
    }

    /// Whether this is the kind of a derived constructor.
    pub fn is_derived(&self) -> (b: bool)
        ensures
            b == (*self == ConstructorKind::Derived),
    {
        matches!(self, ConstructorKind::Derived)
    }
}

/// A function supplied by the host, named by a number that the host
/// dispatches on.
#[derive(Clone, Copy, Debug, PartialEq, Eq, Structural)]
pub struct NativeFunction {
    pub id: usize,
}

/// A field or a private method that a class installs on each instance: its
/// name, and the function that computes the field's value or is the method.
#[derive(Clone, Copy, Debug, PartialEq, Eq, Structural)]
pub struct ClassElement {
    pub name: JsString,
    pub private: bool,
    pub function: JsObject,
}

/// The elements that a list of class elements holds, in order.
pub uninterp spec fn class_elements(list: ThinVec<ClassElement>) -> Seq<ClassElement>;

/// `ThinVec::new` returns a vector without elements.
#[verifier::external_body]
pub(crate) fn new_class_elements() -> (list: ThinVec<ClassElement>)
    ensures
        class_elements(list) == Seq::<ClassElement>::empty(),
{
    ThinVec::new()
}

/// `ThinVec::is_empty` tells whether the vector's length is zero.
#[verifier::external_body]
pub(crate) fn class_elements_is_empty(list: &ThinVec<ClassElement>) -> (empty: bool)
    ensures
        empty == (class_elements(*list).len() == 0),
{
    list.is_empty()
}

/// What kind of function an object is, with what each kind captures.
#[derive(Debug)]
pub enum FunctionKind {
    /// A function of the host.
    Native { function: NativeFunction, constructor: Option<ConstructorKind> },
    /// An ordinary function or a class constructor.
    Ordinary {
        code: CodeBlockRef,
        environments: DeclarativeEnvironmentStack,
        constructor_kind: ConstructorKind,
        home_object: Option<JsObject>,
        fields: ThinVec<ClassElement>,
        private_methods: ThinVec<ClassElement>,
        class_object: Option<JsObject>,
    },
    /// An `async` function.
    Async {
        code: CodeBlockRef,
        environments: DeclarativeEnvironmentStack,
        home_object: Option<JsObject>,
        class_object: Option<JsObject>,
    },
    /// A generator function.
    Generator {
        code: CodeBlockRef,
        environments: DeclarativeEnvironmentStack,
        home_object: Option<JsObject>,
        class_object: Option<JsObject>,
    },
    /// An `async` generator function.
    AsyncGenerator {
        code: CodeBlockRef,
        environments: DeclarativeEnvironmentStack,
        home_object: Option<JsObject>,
        class_object: Option<JsObject>,
    },
}

impl FunctionKind {
    /// The code block of a function that has one.
    pub open spec fn spec_code(self) -> Option<CodeBlockRef> {
        match self {
            FunctionKind::Native { .. } => None,
            FunctionKind::Ordinary { code, .. } => Some(code),
            FunctionKind::Async { code, .. } => Some(code),
            FunctionKind::Generator { code, .. } => Some(code),
            FunctionKind::AsyncGenerator { code, .. } => Some(code),
        }
    }

    /// The environments that the function closed over, as a sequence; empty
    /// for a function of the host.
    pub open spec fn spec_environments(self) -> Seq<crate::environments::runtime::Environment> {
        match self {
            FunctionKind::Native { .. } => Seq::empty(),
            FunctionKind::Ordinary { environments, .. } => environments.stack@,
            FunctionKind::Async { environments, .. } => environments.stack@,
            FunctionKind::Generator { environments, .. } => environments.stack@,
            FunctionKind::AsyncGenerator { environments, .. } => environments.stack@,
        }
    }

    /// The `[[HomeObject]]` internal slot.
    pub open spec fn spec_home_object(self) -> Option<JsObject> {
        match self {
            FunctionKind::Native { .. } => None,
            FunctionKind::Ordinary { home_object, .. } => home_object,
            FunctionKind::Async { home_object, .. } => home_object,
            FunctionKind::Generator { home_object, .. } => home_object,
            FunctionKind::AsyncGenerator { home_object, .. } => home_object,
        }
    }

    /// The class that the function is a method of, if any.
    pub open spec fn spec_class_object(self) -> Option<JsObject> {
        match self {
            FunctionKind::Native { .. } => None,
            FunctionKind::Ordinary { class_object, .. } => class_object,
            FunctionKind::Async { class_object, .. } => class_object,
            FunctionKind::Generator { class_object, .. } => class_object,
            FunctionKind::AsyncGenerator { class_object, .. } => class_object,
        }
    }

    /// Whether the function is `async`.
    pub open spec fn is_async(self) -> bool {
        self is Async || self is AsyncGenerator
    }

    /// Whether the function is a generator.
    pub open spec fn is_generator(self) -> bool {
        self is Generator || self is AsyncGenerator
    }
}

/// A function: its kind and the realm it was created in.
#[derive(Debug)]
pub struct Function {
    pub kind: FunctionKind,
    pub realm: Realm,
}

impl Function {
    /// A function of the given kind in the given realm.
    pub fn new(kind: FunctionKind, realm: Realm) -> (function: Self)
        ensures
            function.kind == kind,
            function.realm == realm,
    {
        Function { kind, realm }
    }

    /// The realm that the function was created in.
    pub fn realm(&self) -> (realm: Realm)
        ensures
            realm == self.realm,
    {
        self.realm
    }

    /// The kind of the function.
    pub fn kind(&self) -> (kind: &FunctionKind)
        ensures
            *kind == self.kind,
    {
        &self.kind
    }

    /// The `[[HomeObject]]` internal slot.
    pub fn get_home_object(&self) -> (home: Option<JsObject>)
        ensures
            home == self.kind.spec_home_object(),
    {
        match &self.kind {
            FunctionKind::Native { .. } => None,
            FunctionKind::Ordinary { home_object, .. } => *home_object,
            FunctionKind::Async { home_object, .. } => *home_object,
            FunctionKind::Generator { home_object, .. } => *home_object,
            FunctionKind::AsyncGenerator { home_object, .. } => *home_object,
        }
    }

    /// Whether the function is the constructor of a derived class.
    pub open spec fn spec_is_derived_constructor(self) -> bool {
        match self.kind {
            FunctionKind::Ordinary { constructor_kind, .. } => constructor_kind
                == ConstructorKind::Derived,
            _ => false,
        }
    }

    /// Whether the function is the constructor of a derived class.
    pub fn is_derived_constructor(&self) -> (b: bool)
        ensures
            b == self.spec_is_derived_constructor(),
    {
        match &self.kind {
            FunctionKind::Ordinary { constructor_kind, .. } => constructor_kind.is_derived(),
            _ => false,
        }
    }

    /// What a scripted function holds: its code block, a copy of the
    /// environments that it closed over, the class that it is a method of,
    /// and whether it is `async` and whether it is a generator.
    pub fn scripted_parts(&self) -> (parts: (
        CodeBlockRef,
        DeclarativeEnvironmentStack,
        Option<JsObject>,
        bool,
        bool,
    ))
        requires
            self.kind.spec_code() is Some,
        ensures
            Some(parts.0) == self.kind.spec_code(),
            parts.1.stack@ == self.kind.spec_environments(),
            parts.2 == self.kind.spec_class_object(),
            parts.3 == self.kind.is_async(),
            parts.4 == self.kind.is_generator(),
    {
        match &self.kind {
            FunctionKind::Native { .. } => vstd::pervasive::unreached(),
            FunctionKind::Ordinary { code, environments, class_object, .. } => (
                *code,
                environments.duplicate(),
                *class_object,
                false,
                false,
            ),
            FunctionKind::Async { code, environments, class_object, .. } => (
                *code,
                environments.duplicate(),
                *class_object,
                true,
                false,
            ),
            FunctionKind::Generator { code, environments, class_object, .. } => (
                *code,
                environments.duplicate(),
                *class_object,
                false,
                true,
            ),
            FunctionKind::AsyncGenerator { code, environments, class_object, .. } => (
                *code,
                environments.duplicate(),
                *class_object,
                true,
                true,
            ),
        }
    }

    /// The code block of a function that has one.
    pub fn code(&self) -> (code: Option<CodeBlockRef>)
        ensures
            code == self.kind.spec_code(),
    {
        match &self.kind {
            FunctionKind::Native { .. } => None,
            FunctionKind::Ordinary { code, .. } => Some(*code),
            FunctionKind::Async { code, .. } => Some(*code),
            FunctionKind::Generator { code, .. } => Some(*code),
            FunctionKind::AsyncGenerator { code, .. } => Some(*code),
        }
    }
}

/// One formal parameter of a function.
#[derive(Clone, Copy, Debug)]
pub struct FormalParameter {
    /// The name that the parameter binds; for a pattern, its first name.
    pub name: Identifier,
    /// The parameter has a default value.
    pub has_initializer: bool,
    /// The parameter is a rest parameter.
    pub is_rest: bool,
    /// The parameter is a destructuring pattern.
    pub is_pattern: bool,
}

impl FormalParameter {
    /// Whether the parameter is a plain name without default value.
    pub open spec fn spec_is_simple(self) -> bool {
        !self.has_initializer && !self.is_rest && !self.is_pattern
    }
}

/// The formal parameters of a function, in order.
#[derive(Debug)]
pub struct FormalParameterList {
    pub parameters: Vec<FormalParameter>,
}

impl FormalParameterList {
    /// The empty parameter list.
    pub fn new() -> (list: Self)
        ensures
            list.parameters@ == Seq::<FormalParameter>::empty(),
    {
        FormalParameterList { parameters: Vec::new() }
    }

    /// Whether every parameter is a plain name without default value.
    pub open spec fn spec_is_simple(self) -> bool {
        forall|i: int|
            0 <= i < self.parameters@.len() ==> (#[trigger] self.parameters@[i]).spec_is_simple()
    }

    /// Whether every parameter is a plain name without default value.
    pub fn is_simple(&self) -> (b: bool)
        ensures
            b == self.spec_is_simple(),
    {
        let mut i: usize = 0;
        while i < self.parameters.len()
            invariant
                0 <= i <= self.parameters@.len(),
                forall|k: int| 0 <= k < i ==> (#[trigger] self.parameters@[k]).spec_is_simple(),
            decreases self.parameters@.len() - i,
        {
            let p = &self.parameters[i];
            if p.has_initializer || p.is_rest || p.is_pattern {
                return false;
            }
            i += 1;
        }
        true
    }

    /// A copy of the list.
    pub fn duplicate(&self) -> (copy: Self)
        ensures
            copy.parameters@ == self.parameters@,
    {
        let mut parameters: Vec<FormalParameter> = Vec::new();
        let mut i: usize = 0;
        while i < self.parameters.len()
            invariant
                0 <= i <= self.parameters@.len(),
                parameters@ == self.parameters@.subrange(0, i as int),
            decreases self.parameters@.len() - i,
        {
            parameters.push(self.parameters[i]);
            assert(self.parameters@.subrange(0, i + 1) =~= self.parameters@.subrange(
                0,
                i as int,
            ).push(self.parameters@[i as int]));
            i += 1;
        }
        assert(self.parameters@.subrange(0, self.parameters@.len() as int) =~= self.parameters@);
        FormalParameterList { parameters }
    }

    /// The number of formal parameters.
    pub fn len(&self) -> (n: usize)
        ensures
            n == self.parameters@.len(),
    {
        self.parameters.len()
    }
}

} // verus!
