//! Creating function objects from code blocks.
//!
//! Which prototype a function object gets and which properties it starts
//! with depends on its kind:
//!
//! | kind | prototype | properties |
//! |---|---|---|
//! | `async` | `%AsyncFunction.prototype%` | `length`, `name` |
//! | arrow function or method | `%Function.prototype%` | `length`, `name` |
//! | any other function | `%Function.prototype%` | `length`, `name`, `prototype` |
//! | generator | `%GeneratorFunction.prototype%` | `prototype`, `name`, `length` |
//! | `async` generator | `%AsyncGeneratorFunction.prototype%` | `prototype`, `name`, `length` |
//!
//! A prototype that the caller supplies takes the place of the intrinsic
//! one. A generator method has no `prototype` property.

use crate::builtins::arguments::length_key;
use crate::builtins::arguments::length_property_key;
use crate::context::Context;
use crate::environments::runtime::Environment;
use crate::function::class_elements;
use crate::function::new_class_elements;
use crate::function::ConstructorKind;
use crate::function::Function;
use crate::function::FunctionKind;
use crate::heap::lemma_wf_carries;
use crate::heap::Heap;
use crate::interner::interner_strings;
use crate::interner::resolve_name;
use crate::interner::sym_index;
use crate::object::Attributes;
use crate::object::Object;
use crate::object::ObjectData;
use crate::object::Property;
use crate::object::PropertyKey;
use crate::object::PropertyKeyView;
use crate::realm::Realm;
use crate::value::JsObject;
use crate::value::JsString;
use crate::value::JsValue;
use crate::vm::call::prototype_key;
use crate::vm::call::prototype_property_key;
use crate::vm::code_block::CodeBlockRef;
use vstd::prelude::*;

verus! {

/// The code units of `name`.
pub open spec fn name_key() -> Seq<u16> {
    seq![110u16, 97u16, 109u16, 101u16]
}

/// The property key `name`.
pub fn name_property_key() -> (key: PropertyKey)
    ensures
        key@ == PropertyKeyView::String(name_key()),
{
    let mut units: Vec<u16> = Vec::new();
    units.push(110);
    units.push(97);
    units.push(109);
    units.push(101);
    assert(units@ =~= name_key());
    PropertyKey::String(units)
}

/// The code units of `constructor`.
pub open spec fn constructor_key() -> Seq<u16> {
    seq![99u16, 111u16, 110u16, 115u16, 116u16, 114u16, 117u16, 99u16, 116u16, 111u16, 114u16]
}

/// The property key `constructor`.
pub fn constructor_property_key() -> (key: PropertyKey)
    ensures
        key@ == PropertyKeyView::String(constructor_key()),
{
    let mut units: Vec<u16> = Vec::new();
    units.push(99);
    units.push(111);
    units.push(110);
    units.push(115);
    units.push(116);
    units.push(114);
    units.push(117);
    units.push(99);
    units.push(116);
    units.push(111);
    units.push(114);
    assert(units@ =~= constructor_key());
    PropertyKey::String(units)
}

/// The attributes of the `name` and the `length` property of a function:
/// not writable, not enumerable, configurable.
pub open spec fn name_attributes() -> Attributes {
    Attributes { writable: false, enumerable: false, configurable: true }
}

/// The attributes of the `prototype` property of an ordinary function:
/// writable, not enumerable, not configurable.
pub open spec fn prototype_attributes() -> Attributes {
    Attributes { writable: true, enumerable: false, configurable: false }
}

/// The attributes of the `prototype` property of a generator function:
/// not writable, not enumerable, not configurable.
pub open spec fn generator_prototype_attributes() -> Attributes {
    Attributes { writable: false, enumerable: false, configurable: false }
}

/// The attributes of the `constructor` property of a prototype object:
/// writable, not enumerable, configurable.
pub open spec fn constructor_attributes() -> Attributes {
    Attributes { writable: true, enumerable: false, configurable: true }
}

/// Whether a property has the given key, value and attributes.
pub open spec fn property_is(
    property: Property,
    key: Seq<u16>,
    value: JsValue,
    attributes: Attributes,
) -> bool {
    &&& property.key@ == PropertyKeyView::String(key)
    &&& property.value == value
    &&& property.attributes == attributes
}

impl Heap {
    /// Whether `after` is this heap with one string and `count` objects
    /// appended; the other arenas are the same.
    pub open spec fn grew_with_name(self, after: Heap, name: Seq<u16>, count: int) -> bool {
        &&& after.strings@.len() == self.strings@.len() + 1
        &&& forall|i: int|
            0 <= i < self.strings@.len() ==> (#[trigger] after.strings@[i]) == self.strings@[i]
        &&& after.strings@[self.strings@.len() as int]@ == name
        &&& after.environments == self.environments
        &&& after.compile_environments == self.compile_environments
        &&& after.code_blocks == self.code_blocks
        &&& after.realms == self.realms
        &&& after.objects@.len() == self.objects@.len() + count
        &&& forall|i: int|
            0 <= i < self.objects@.len() ==> (#[trigger] after.objects@[i]) == self.objects@[i]
    }

    /// Whether the function data is that of a function that was just
    /// created from a code block: it closed over the given environments, in
    /// the given realm, and has neither home object nor class nor class
    /// elements.
    pub open spec fn is_closure(
        function: Function,
        code: CodeBlockRef,
        is_async: bool,
        is_generator: bool,
        stack: Seq<Environment>,
        realm: Realm,
    ) -> bool {
        &&& function.realm == realm
        &&& function.kind.spec_code() == Some(code)
        &&& function.kind.spec_environments() == stack
        &&& function.kind.spec_home_object() is None
        &&& function.kind.spec_class_object() is None
        &&& function.kind.is_async() == is_async
        &&& function.kind.is_generator() == is_generator
        &&& function.kind matches FunctionKind::Ordinary {
            constructor_kind,
            fields,
            private_methods,
            ..
        } ==> constructor_kind == ConstructorKind::Base && class_elements(fields).len() == 0
            && class_elements(private_methods).len() == 0
    }

    /// Whether the object is a function that was just created from a code
    /// block with the given prototype: its data is that of a closure, and
    /// its properties are `length` and `name`, followed by `prototype` where
    /// the function can construct. The `prototype` property holds the object
    /// created just before the function, whose only property is a
    /// `constructor` that points back at the function.
    pub open spec fn is_new_function(
        self,
        object: JsObject,
        code: CodeBlockRef,
        is_async: bool,
        constructs: bool,
        prototype: JsObject,
        name: JsString,
        stack: Seq<Environment>,
        realm: Realm,
    ) -> bool {
        let properties = self.object(object).properties@;
        let constructor_prototype = JsObject { index: (object.index - 1) as usize };
        &&& self.has_object(object)
        &&& self.object(object).prototype == Some(prototype)
        &&& self.object(object).data matches ObjectData::Function(function) && Heap::is_closure(
            function,
            code,
            is_async,
            false,
            stack,
            realm,
        )
        &&& properties.len() == 2 + (if constructs {
            1int
        } else {
            0int
        })
        &&& property_is(
            properties[0],
            length_key(),
            JsValue::spec_from_u32(self.code_block(code).length),
            name_attributes(),
        )
        &&& property_is(properties[1], name_key(), JsValue::String(name), name_attributes())
        &&& constructs ==> {
            &&& object.index >= 1
            &&& property_is(
                properties[2],
                prototype_key(),
                JsValue::Object(constructor_prototype),
                prototype_attributes(),
            )
            &&& self.object(constructor_prototype).prototype == Some(
                self.realm(realm).intrinsics.object_prototype,
            )
            &&& self.object(constructor_prototype).data is Ordinary
            &&& self.object(constructor_prototype).properties@.len() == 1
            &&& property_is(
                self.object(constructor_prototype).properties@[0],
                constructor_key(),
                JsValue::Object(object),
                constructor_attributes(),
            )
        }
    }

    /// Whether the object is a generator function that was just created
    /// from a code block with the given prototype: its data is that of a
    /// closure, and its properties are `prototype`, unless it is a method,
    /// `name` and `length`. The `prototype` property holds the object created
    /// just before the function, which has no properties and whose prototype
    /// is the realm's prototype of generators of this kind.
    pub open spec fn is_new_generator_function(
        self,
        object: JsObject,
        code: CodeBlockRef,
        is_async: bool,
        method: bool,
        prototype: JsObject,
        name: JsString,
        stack: Seq<Environment>,
        realm: Realm,
    ) -> bool {
        let properties = self.object(object).properties@;
        let generator_prototype = JsObject { index: (object.index - 1) as usize };
        let first = if method {
            0int
        } else {
            1int
        };
        &&& self.has_object(object)
        &&& object.index >= 1
        &&& self.object(object).prototype == Some(prototype)
        &&& if is_async {
            self.object(object).data is AsyncGeneratorFunction
        } else {
            self.object(object).data is GeneratorFunction
        }
        &&& self.object(object).data.spec_as_function() matches Some(function)
            && Heap::is_closure(function, code, is_async, true, stack, realm)
        &&& self.object(generator_prototype).prototype == Some(
            if is_async {
                self.realm(realm).intrinsics.async_generator
            } else {
                self.realm(realm).intrinsics.generator
            },
        )
        &&& self.object(generator_prototype).data is Ordinary
        &&& self.object(generator_prototype).properties@.len() == 0
        &&& properties.len() == first + 2
        &&& !method ==> property_is(
            properties[0],
            prototype_key(),
            JsValue::Object(generator_prototype),
            generator_prototype_attributes(),
        )
        &&& property_is(properties[first], name_key(), JsValue::String(name), name_attributes())
        &&& property_is(
            properties[first + 1],
            length_key(),
            JsValue::spec_from_u32(self.code_block(code).length),
            name_attributes(),
        )
    }
}

impl Context {
    /// Whether a function object can be created from the code block: the
    /// context is well formed, the code block exists and the interner holds
    /// its name.
    pub open spec fn can_create_function(self, code: CodeBlockRef) -> bool {
        &&& self.wf()
        &&& self.heap.has_code_block(code)
        &&& interner_strings(self.interner).contains_key(sym_index(self.heap.code_block(code).name))
    }

    /// The name of a code block, as a new string on the heap.
    fn function_name(&mut self, code: CodeBlockRef) -> (name: JsString)
        requires
            old(self).can_create_function(code),
        ensures
            name.index == old(self).heap.strings@.len(),
            old(self).heap.grew_with_name(
                final(self).heap,
                interner_strings(old(self).interner)[sym_index(old(self).heap.code_block(code).name)],
                0,
            ),
            final(self).heap.objects == old(self).heap.objects,
            final(self).heap.extends(old(self).heap),
            final(self).wf(),
            final(self).vm == old(self).vm,
            final(self).realm == old(self).realm,
            final(self).interner == old(self).interner,
    {
        let sym = self.heap.code_block_of(&code).name;
        let units = match resolve_name(&self.interner, sym) {
            Some(resolved) => resolved.utf16,
            None => vstd::pervasive::unreached(),
        };
        let name = self.heap.alloc_string(units);
        proof {
            self.heap.lemma_stack_wf_extends(old(self).heap, self.vm.environments.stack@);
        }
        name
    }

    /// The data of a function that closes over the current environments in
    /// the current realm.
    fn closure(&self, code: CodeBlockRef, is_async: bool, is_generator: bool) -> (function: Function)
        requires
            self.wf(),
            self.heap.has_code_block(code),
        ensures
            Heap::is_closure(
                function,
                code,
                is_async,
                is_generator,
                self.vm.environments.stack@,
                self.realm,
            ),
            self.heap.function_wf(function),
    {
        let environments = self.vm.environments.duplicate();
        let kind = if is_generator {
            if is_async {
                FunctionKind::AsyncGenerator {
                    code,
                    environments,
                    home_object: None,
                    class_object: None,
                }
            } else {
                FunctionKind::Generator { code, environments, home_object: None, class_object: None }
            }
        } else if is_async {
            FunctionKind::Async { code, environments, home_object: None, class_object: None }
        } else {
            FunctionKind::Ordinary {
                code,
                environments,
                constructor_kind: ConstructorKind::Base,
                home_object: None,
                fields: new_class_elements(),
                private_methods: new_class_elements(),
                class_object: None,
            }
        };
        Function::new(kind, self.realm)
    }
}

impl Context {
    /// Creates a function object from a code block, with the given
    /// prototype. A function that can construct gets a `prototype` property
    /// with a new object whose `constructor` is the function.
    fn instantiate_function(
        &mut self,
        code: CodeBlockRef,
        is_async: bool,
        constructs: bool,
        prototype: JsObject,
    ) -> (function: JsObject)
        requires
            old(self).can_create_function(code),
            old(self).heap.has_object(prototype),
        ensures
            function.index == old(self).heap.objects@.len() + (if constructs {
                1int
            } else {
                0int
            }),
            old(self).heap.grew_with_name(
                final(self).heap,
                interner_strings(old(self).interner)[sym_index(old(self).heap.code_block(code).name)],
                if constructs {
                    2
                } else {
                    1
                },
            ),
            final(self).heap.is_new_function(
                function,
                code,
                is_async,
                constructs,
                prototype,
                JsString { index: old(self).heap.strings@.len() as usize },
                old(self).vm.environments.stack@,
                old(self).realm,
            ),
            final(self).heap.extends(old(self).heap),
            final(self).wf(),
            final(self).vm == old(self).vm,
            final(self).realm == old(self).realm,
            final(self).interner == old(self).interner,
    {
        proof {
            self.heap.lemma_bounded();
            assert(self.heap.realm_wf(self.heap.realms@[self.realm.index as int]));
        }
        let name = self.function_name(code);
        let length = JsValue::from_u32(self.heap.code_block_of(&code).length);
        let ghost h1 = self.heap;
        let mut storage: Vec<Property> = Vec::new();
        storage.push(
            Property {
                key: length_property_key(),
                value: length,
                attributes: Attributes { writable: false, enumerable: false, configurable: true },
            },
        );
        storage.push(
            Property {
                key: name_property_key(),
                value: JsValue::String(name),
                attributes: Attributes { writable: false, enumerable: false, configurable: true },
            },
        );
        if constructs {
            let object_prototype = self.heap.realm_of(&self.realm).intrinsics.object_prototype;
            let mut constructor_storage: Vec<Property> = Vec::new();
            constructor_storage.push(
                Property {
                    key: constructor_property_key(),
                    value: JsValue::Undefined,
                    attributes: Attributes { writable: true, enumerable: false, configurable: true },
                },
            );
            let constructor_prototype = self.heap.alloc_object(
                Object {
                    prototype: Some(object_prototype),
                    properties: constructor_storage,
                    data: ObjectData::Ordinary,
                },
            );
            let ghost h2 = self.heap;
            proof {
                h2.lemma_bounded();
                h2.lemma_extends_transitive(h1, old(self).heap);
                h2.lemma_stack_wf_extends(h1, self.vm.environments.stack@);
            }
            storage.push(
                Property {
                    key: prototype_property_key(),
                    value: JsValue::Object(constructor_prototype),
                    attributes: Attributes { writable: true, enumerable: false, configurable: false },
                },
            );
            let data = ObjectData::Function(self.closure(code, is_async, false));
            let function = self.heap.alloc_object(
                Object { prototype: Some(prototype), properties: storage, data },
            );
            let ghost h3 = self.heap;
            proof {
                h3.lemma_bounded();
                h3.lemma_extends_transitive(h2, old(self).heap);
            }
            self.heap.objects[constructor_prototype.index].properties[0].value = JsValue::Object(
                function,
            );
            proof {
                lemma_wf_carries(self.heap, h3);
                self.heap.lemma_extends_transitive(h3, old(self).heap);
                self.heap.lemma_stack_wf_extends(old(self).heap, self.vm.environments.stack@);
                assert forall|i: int| 0 <= i < old(self).heap.objects@.len() implies (
                #[trigger] self.heap.objects@[i]) == old(self).heap.objects@[i] by {
                    assert(h3.objects@[i] == h2.objects@[i]);
                    assert(h2.objects@[i] == h1.objects@[i]);
                }
            }
            function
        } else {
            let data = ObjectData::Function(self.closure(code, is_async, false));
            let function = self.heap.alloc_object(
                Object { prototype: Some(prototype), properties: storage, data },
            );
            proof {
                self.heap.lemma_bounded();
                self.heap.lemma_extends_transitive(h1, old(self).heap);
                self.heap.lemma_stack_wf_extends(old(self).heap, self.vm.environments.stack@);
                assert forall|i: int| 0 <= i < old(self).heap.objects@.len() implies (
                #[trigger] self.heap.objects@[i]) == old(self).heap.objects@[i] by {
                    assert(self.heap.objects@[i] == h1.objects@[i]);
                }
            }
            function
        }
    }
}

/// Creates a function object from a code block, with the prototype that
/// the realm provides for its kind: `%AsyncFunction.prototype%` for an
/// `async` function, `%Function.prototype%` otherwise. A function that is
/// neither `async` nor an arrow function nor a method can construct, and
/// gets a `prototype` property.
pub fn create_function_object_fast(
    code: CodeBlockRef,
    is_async: bool,
    arrow: bool,
    method: bool,
    context: &mut Context,
) -> (function: JsObject)
    requires
        old(context).can_create_function(code),
    ensures
        function.index == old(context).heap.objects@.len() + (if !(is_async || arrow || method) {
            1int
        } else {
            0int
        }),
        old(context).heap.grew_with_name(
            final(context).heap,
            interner_strings(old(context).interner)[sym_index(
                old(context).heap.code_block(code).name,
            )],
            if !(is_async || arrow || method) {
                2
            } else {
                1
            },
        ),
        final(context).heap.is_new_function(
            function,
            code,
            is_async,
            !(is_async || arrow || method),
            if is_async {
                old(context).heap.realm(old(context).realm).intrinsics.async_function_prototype
            } else {
                old(context).heap.realm(old(context).realm).intrinsics.function_prototype
            },
            JsString { index: old(context).heap.strings@.len() as usize },
            old(context).vm.environments.stack@,
            old(context).realm,
        ),
        final(context).heap.extends(old(context).heap),
        final(context).wf(),
        final(context).vm == old(context).vm,
        final(context).realm == old(context).realm,
        final(context).interner == old(context).interner,
{
    proof {
        assert(context.heap.realm_wf(context.heap.realms@[context.realm.index as int]));
    }
    let intrinsics = context.heap.realm_of(&context.realm).intrinsics;
    let prototype = if is_async {
        intrinsics.async_function_prototype
    } else {
        intrinsics.function_prototype
    };
    context.instantiate_function(code, is_async, !(is_async || arrow || method), prototype)
}

/// Creates a function object from a code block. Without a prototype this
/// is [`create_function_object_fast`]; with one, the function object is the
/// same but for its prototype, which is the given one.
pub fn create_function_object(
    code: CodeBlockRef,
    is_async: bool,
    arrow: bool,
    prototype: Option<JsObject>,
    method: bool,
    context: &mut Context,
) -> (function: JsObject)
    requires
        old(context).can_create_function(code),
        prototype matches Some(p) ==> old(context).heap.has_object(p),
    ensures
        function.index == old(context).heap.objects@.len() + (if !(is_async || arrow || method) {
            1int
        } else {
            0int
        }),
        old(context).heap.grew_with_name(
            final(context).heap,
            interner_strings(old(context).interner)[sym_index(
                old(context).heap.code_block(code).name,
            )],
            if !(is_async || arrow || method) {
                2
            } else {
                1
            },
        ),
        final(context).heap.is_new_function(
            function,
            code,
            is_async,
            !(is_async || arrow || method),
            match prototype {
                Some(p) => p,
                None => if is_async {
                    old(context).heap.realm(old(context).realm).intrinsics.async_function_prototype
                } else {
                    old(context).heap.realm(old(context).realm).intrinsics.function_prototype
                },
            },
            JsString { index: old(context).heap.strings@.len() as usize },
            old(context).vm.environments.stack@,
            old(context).realm,
        ),
        final(context).heap.extends(old(context).heap),
        final(context).wf(),
        final(context).vm == old(context).vm,
        final(context).realm == old(context).realm,
        final(context).interner == old(context).interner,
{
    match prototype {
        None => create_function_object_fast(code, is_async, arrow, method, context),
        Some(prototype) => context.instantiate_function(
            code,
            is_async,
            !(is_async || arrow || method),
            prototype,
        ),
    }
}

/// Creates a generator function object from a code block. Its prototype is
/// the given one, or else the realm's `%GeneratorFunction.prototype%` or
/// `%AsyncGeneratorFunction.prototype%`. Unless the function is a method,
/// its `prototype` property holds a new object, which the generators that
/// the function creates get as their prototype.
pub fn create_generator_function_object(
    code: CodeBlockRef,
    is_async: bool,
    method: bool,
    prototype: Option<JsObject>,
    context: &mut Context,
) -> (function: JsObject)
    requires
        old(context).can_create_function(code),
        prototype matches Some(p) ==> old(context).heap.has_object(p),
    ensures
        function.index == old(context).heap.objects@.len() + 1,
        old(context).heap.grew_with_name(
            final(context).heap,
            interner_strings(old(context).interner)[sym_index(
                old(context).heap.code_block(code).name,
            )],
            2,
        ),
        final(context).heap.is_new_generator_function(
            function,
            code,
            is_async,
            method,
            match prototype {
                Some(p) => p,
                None => if is_async {
                    old(context).heap.realm(
                        old(context).realm,
                    ).intrinsics.async_generator_function_prototype
                } else {
                    old(context).heap.realm(old(context).realm).intrinsics.generator_function_prototype
                },
            },
            JsString { index: old(context).heap.strings@.len() as usize },
            old(context).vm.environments.stack@,
            old(context).realm,
        ),
        final(context).heap.extends(old(context).heap),
        final(context).wf(),
        final(context).vm == old(context).vm,
        final(context).realm == old(context).realm,
        final(context).interner == old(context).interner,
{
    proof {
        context.heap.lemma_bounded();
        assert(context.heap.realm_wf(context.heap.realms@[context.realm.index as int]));
    }
    let intrinsics = context.heap.realm_of(&context.realm).intrinsics;
    let function_prototype = match prototype {
        Some(prototype) => prototype,
        None => if is_async {
            intrinsics.async_generator_function_prototype
        } else {
            intrinsics.generator_function_prototype
        },
    };
    let name = context.function_name(code);
    let length = JsValue::from_u32(context.heap.code_block_of(&code).length);
    let ghost h1 = context.heap;
    let generator_prototype = context.heap.alloc_ordinary(
        Some(
            if is_async {
                intrinsics.async_generator
            } else {
                intrinsics.generator
            },
        ),
    );
    let ghost h2 = context.heap;
    proof {
        h2.lemma_bounded();
        h2.lemma_extends_transitive(h1, old(context).heap);
        h2.lemma_stack_wf_extends(h1, context.vm.environments.stack@);
    }
    let mut storage: Vec<Property> = Vec::new();
    if !method {
        storage.push(
            Property {
                key: prototype_property_key(),
                value: JsValue::Object(generator_prototype),
                attributes: Attributes { writable: false, enumerable: false, configurable: false },
            },
        );
    }
    storage.push(
        Property {
            key: name_property_key(),
            value: JsValue::String(name),
            attributes: Attributes { writable: false, enumerable: false, configurable: true },
        },
    );
    storage.push(
        Property {
            key: length_property_key(),
            value: length,
            attributes: Attributes { writable: false, enumerable: false, configurable: true },
        },
    );
    let function = context.closure(code, is_async, true);
    let data = if is_async {
        ObjectData::AsyncGeneratorFunction(function)
    } else {
        ObjectData::GeneratorFunction(function)
    };
    let constructor = context.heap.alloc_object(
        Object { prototype: Some(function_prototype), properties: storage, data },
    );
    proof {
        context.heap.lemma_bounded();
        context.heap.lemma_extends_transitive(h2, old(context).heap);
        context.heap.lemma_stack_wf_extends(old(context).heap, context.vm.environments.stack@);
        assert forall|i: int| 0 <= i < old(context).heap.objects@.len() implies (
        #[trigger] context.heap.objects@[i]) == old(context).heap.objects@[i] by {
            assert(context.heap.objects@[i] == h2.objects@[i]);
            assert(h2.objects@.drop_last()[i] == h2.objects@[i]);
        }
        assert(context.heap.objects@[generator_prototype.index as int]
            == h2.objects@[generator_prototype.index as int]);
    }
    constructor
}

} // verus!
