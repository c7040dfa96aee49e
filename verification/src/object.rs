//! Objects: a prototype link, a list of data properties and the internal
//! data that tells what kind of object it is.

use crate::environments::runtime::DeclarativeEnvironmentRef;
use crate::environments::runtime::DeclarativeEnvironmentStack;
use crate::function::Function;
use crate::realm::Realm;
use crate::value::JsObject;
use crate::value::JsSymbol;
use crate::value::JsValue;
use crate::vm::CallFrame;
use vstd::prelude::*;

verus! {

/// The key of a property.
#[derive(Debug)]
pub enum PropertyKey {
    /// A string key, in UTF-16.
    String(Vec<u16>),
    /// A symbol key.
    Symbol(JsSymbol),
    /// An array index.
    Index(u32),
}

/// The mathematical value of a property key.
pub enum PropertyKeyView {
    String(Seq<u16>),
    Symbol(JsSymbol),
    Index(u32),
}

impl View for PropertyKey {
    type V = PropertyKeyView;

    open spec fn view(&self) -> PropertyKeyView {
        match *self {
            PropertyKey::String(units) => PropertyKeyView::String(units@),
            PropertyKey::Symbol(symbol) => PropertyKeyView::Symbol(symbol),
            PropertyKey::Index(index) => PropertyKeyView::Index(index),
        }
    }
}

/// Whether two strings hold the same code units.
pub fn utf16_eq(a: &Vec<u16>, b: &Vec<u16>) -> (equal: bool)
    ensures
        equal == (a@ == b@),
{
    if a.len() != b.len() {
        return false;
    }
    let mut i: usize = 0;
    while i < a.len()
        invariant
            a@.len() == b@.len(),
            0 <= i <= a@.len(),
            forall|k: int| 0 <= k < i ==> a@[k] == b@[k],
        decreases a@.len() - i,
    {
        if a[i] != b[i] {
            return false;
        }
        i += 1;
    }
    assert(a@ =~= b@);
    true
}

impl PropertyKey {
    /// Whether two keys are the same key.
    pub fn same(&self, other: &PropertyKey) -> (equal: bool)
        ensures
            equal == (self@ == other@),
    {
        match (self, other) {
            (PropertyKey::String(a), PropertyKey::String(b)) => utf16_eq(a, b),
            (PropertyKey::Symbol(a), PropertyKey::Symbol(b)) => a.id == b.id,
            (PropertyKey::Index(a), PropertyKey::Index(b)) => *a == *b,
            _ => false,
        }
    }
}

/// The attributes of a property.
#[derive(Clone, Copy, Debug, PartialEq, Eq, Structural)]
pub struct Attributes {
    pub writable: bool,
    pub enumerable: bool,
    pub configurable: bool,
}

/// A data property.
#[derive(Debug)]
pub struct Property {
    pub key: PropertyKey,
    pub value: JsValue,
    pub attributes: Attributes,
}

/// The state of a generator.
#[derive(Clone, Copy, Debug, PartialEq, Eq, Structural)]
pub enum GeneratorState {
    /// Created, not yet resumed.
    SuspendedStart,
    /// Suspended at a `yield`.
    SuspendedYield,
    /// Running.
    Executing,
    /// Finished.
    Completed,
}

/// The execution context that a suspended generator holds.
#[derive(Debug)]
pub struct GeneratorContext {
    pub environments: DeclarativeEnvironmentStack,
    pub stack: Vec<JsValue>,
    pub active_function: Option<JsObject>,
    pub call_frame: Option<CallFrame>,
    pub realm: Realm,
}

impl GeneratorContext {
    /// A context that holds the given parts.
    pub fn new(
        environments: DeclarativeEnvironmentStack,
        stack: Vec<JsValue>,
        active_function: Option<JsObject>,
        call_frame: CallFrame,
        realm: Realm,
    ) -> (context: Self)
        ensures
            context.environments == environments,
            context.stack == stack,
            context.active_function == active_function,
            context.call_frame == Some(call_frame),
            context.realm == realm,
    {
        GeneratorContext {
            environments,
            stack,
            active_function,
            call_frame: Some(call_frame),
            realm,
        }
    }
}

/// A generator or an `async` generator: its state and, while it is
/// suspended, its execution context.
#[derive(Debug)]
pub struct Generator {
    pub state: GeneratorState,
    pub context: Option<GeneratorContext>,
}

/// The link between the elements of an arguments object and the parameter
/// bindings that they alias.
#[derive(Debug)]
pub struct ParameterMap {
    /// For each element, the binding that it aliases, if any.
    pub binding_indices: Vec<Option<usize>>,
    /// The environment that holds those bindings.
    pub environment: DeclarativeEnvironmentRef,
}

/// The internal data of an arguments object.
#[derive(Debug)]
pub enum Arguments {
    /// The elements are independent of the parameters.
    Unmapped,
    /// The elements alias the parameters.
    Mapped(ParameterMap),
}

/// The internal data of an object.
#[derive(Debug)]
pub enum ObjectData {
    /// A plain object.
    Ordinary,
    /// A function.
    Function(Function),
    /// A generator function.
    GeneratorFunction(Function),
    /// An `async` generator function.
    AsyncGeneratorFunction(Function),
    /// A generator.
    Generator(Generator),
    /// An `async` generator.
    AsyncGenerator(Generator),
    /// An arguments object.
    Arguments(Arguments),
    /// A promise.
    Promise,
    /// The wrapper object of a primitive value.
    Primitive(JsValue),
}

impl ObjectData {
    /// The function data, if the object is a function of any kind.
    pub open spec fn spec_as_function(self) -> Option<Function> {
        match self {
            ObjectData::Function(f) => Some(f),
            ObjectData::GeneratorFunction(f) => Some(f),
            ObjectData::AsyncGeneratorFunction(f) => Some(f),
            _ => None,
        }
    }

    /// The function data, if the object is a function of any kind.
    pub fn as_function(&self) -> (function: Option<&Function>)
        ensures
            match function {
                Some(f) => self.spec_as_function() == Some(*f),
                None => self.spec_as_function() is None,
            },
    {
        match self {
            ObjectData::Function(f) => Some(f),
            ObjectData::GeneratorFunction(f) => Some(f),
            ObjectData::AsyncGeneratorFunction(f) => Some(f),
            _ => None,
        }
    }
}

/// An object.
#[derive(Debug)]
pub struct Object {
    pub prototype: Option<JsObject>,
    pub properties: Vec<Property>,
    pub data: ObjectData,
}

/// The first position before `end` whose property has the given key.
pub open spec fn find_property(properties: Seq<Property>, key: PropertyKeyView, end: int) -> Option<
    int,
>
    decreases end,
{
    if end <= 0 || end > properties.len() {
        None
    } else {
        match find_property(properties, key, end - 1) {
            Some(i) => Some(i),
            None => if properties[end - 1].key@ == key {
                Some(end - 1)
            } else {
                None
            },
        }
    }
}

/// `find_property` returns the least position that holds the key, and
/// nothing exactly when no position does.
pub proof fn lemma_find_property(properties: Seq<Property>, key: PropertyKeyView, end: int)
    requires
        0 <= end <= properties.len(),
    ensures
        match find_property(properties, key, end) {
            Some(i) => 0 <= i < end && properties[i].key@ == key && forall|k: int|
                0 <= k < i ==> properties[k].key@ != key,
            None => forall|k: int| 0 <= k < end ==> properties[k].key@ != key,
        },
    decreases end,
{
    if end > 0 {
        lemma_find_property(properties, key, end - 1);
    }
}

impl Object {
    /// The position of the own property with the given key, if there is one.
    pub open spec fn own_property(self, key: PropertyKeyView) -> Option<int> {
        find_property(self.properties@, key, self.properties@.len() as int)
    }

    /// The position of the own property with the given key, if there is one.
    pub fn find_own_property(&self, key: &PropertyKey) -> (found: Option<usize>)
        ensures
            match found {
                Some(i) => self.own_property(key@) == Some(i as int) && i < self.properties@.len()
                    && self.properties@[i as int].key@ == key@,
                None => self.own_property(key@) is None,
            },
    {
        let mut i: usize = 0;
        while i < self.properties.len()
            invariant
                0 <= i <= self.properties@.len(),
                find_property(self.properties@, key@, i as int) is None,
            decreases self.properties@.len() - i,
        {
            if self.properties[i].key.same(key) {
                proof {
                    lemma_find_property(self.properties@, key@, i as int + 1);
                    lemma_find_property(self.properties@, key@, self.properties@.len() as int);
                }
                return Some(i);
            }
            i += 1;
        }
        None
    }
}

} // verus!
