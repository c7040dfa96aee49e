//! The `arguments` object of a function call.

use crate::context::Context;
use crate::environments::compile::CompileTimeEnvironment;
use crate::environments::runtime::DeclarativeEnvironmentRef;
use crate::function::FormalParameter;
use crate::function::FormalParameterList;
use crate::heap::Heap;
use crate::object::Arguments;
use crate::object::Attributes;
use crate::object::Object;
use crate::object::ObjectData;
use crate::object::ParameterMap;
use crate::object::Property;
use crate::object::PropertyKey;
use crate::object::PropertyKeyView;
use crate::value::JsObject;
use crate::value::JsValue;
use vstd::prelude::*;

verus! {

/// The code units of `length`.
pub open spec fn length_key() -> Seq<u16> {
    seq![108u16, 101u16, 110u16, 103u16, 116u16, 104u16]
}

/// The property key `length`.
pub fn length_property_key() -> (key: PropertyKey)
    ensures
        key@ == PropertyKeyView::String(length_key()),
{
    let mut units: Vec<u16> = Vec::new();
    units.push(108);
    units.push(101);
    units.push(110);
    units.push(103);
    units.push(116);
    units.push(104);
    assert(units@ =~= length_key());
    PropertyKey::String(units)
}

/// Whether the properties are those of an arguments object for the given
/// arguments: `length`, then one element per argument.
pub open spec fn arguments_properties(properties: Seq<Property>, args: Seq<JsValue>) -> bool {
    &&& properties.len() == args.len() + 1
    &&& properties[0].key@ == PropertyKeyView::String(length_key())
    &&& properties[0].value == JsValue::Integer(args.len() as i32)
    &&& properties[0].attributes == Attributes {
        writable: true,
        enumerable: false,
        configurable: true,
    }
    &&& forall|i: int|
        0 <= i < args.len() ==> {
            &&& (#[trigger] properties[i + 1]).key@ == PropertyKeyView::Index(i as u32)
            &&& properties[i + 1].value == args[i]
            &&& properties[i + 1].attributes == Attributes {
                writable: true,
                enumerable: true,
                configurable: true,
            }
        }
}

/// The binding that element `i` of a mapped arguments object aliases, where
/// the first `count` parameters are mapped: the binding that the compile-time
/// environment declares for the name of parameter `i`, unless a later mapped
/// parameter has the same name.
pub open spec fn mapped_binding(
    compile: CompileTimeEnvironment,
    params: Seq<FormalParameter>,
    count: int,
    i: int,
) -> Option<usize> {
    if exists|j: int| i < j < count && (#[trigger] params[j]).name.index() == params[i].name.index() {
        None
    } else {
        match compile.lookup(params[i].name.index()) {
            Some(b) => Some(b as usize),
            None => None,
        }
    }
}

/// The number of elements of an arguments object that can alias a
/// parameter: the lesser of the number of parameters and of arguments.
pub open spec fn mapped_count(params: int, args: int) -> int {
    if params < args {
        params
    } else {
        args
    }
}

/// The properties of an arguments object for the given arguments.
fn make_properties(args: &[JsValue]) -> (properties: Vec<Property>)
    requires
        args@.len() <= i32::MAX,
    ensures
        arguments_properties(properties@, args@),
{
    let mut properties: Vec<Property> = Vec::new();
    properties.push(
        Property {
            key: length_property_key(),
            value: JsValue::Integer(args.len() as i32),
            attributes: Attributes { writable: true, enumerable: false, configurable: true },
        },
    );
    let mut i: usize = 0;
    while i < args.len()
        invariant
            0 <= i <= args@.len(),
            args@.len() <= i32::MAX,
            properties@.len() == i + 1,
            properties@[0].key@ == PropertyKeyView::String(length_key()),
            properties@[0].value == JsValue::Integer(args@.len() as i32),
            properties@[0].attributes == (Attributes {
                writable: true,
                enumerable: false,
                configurable: true,
            }),
            forall|k: int|
                0 <= k < i ==> {
                    &&& (#[trigger] properties@[k + 1]).key@ == PropertyKeyView::Index(k as u32)
                    &&& properties@[k + 1].value == args@[k]
                    &&& properties@[k + 1].attributes == Attributes {
                        writable: true,
                        enumerable: true,
                        configurable: true,
                    }
                },
        decreases args@.len() - i,
    {
        properties.push(
            Property {
                key: PropertyKey::Index(i as u32),
                value: args[i],
                attributes: Attributes { writable: true, enumerable: true, configurable: true },
            },
        );
        i += 1;
    }
    properties
}

impl Arguments {
    /// Creates an arguments object whose elements are independent of the
    /// parameters.
    pub fn create_unmapped_arguments_object(args: &[JsValue], context: &mut Context) -> (object:
        JsObject)
        requires
            old(context).heap.wf(),
            old(context).heap.has_realm(old(context).realm),
            args@.len() <= i32::MAX,
        ensures
            object.index == old(context).heap.objects@.len(),
            final(context).heap.objects@.len() == old(context).heap.objects@.len() + 1,
            final(context).heap.objects@.drop_last() == old(context).heap.objects@,
            final(context).heap.object(object).prototype == Some(
                old(context).heap.realm(old(context).realm).intrinsics.object_prototype,
            ),
            final(context).heap.object(object).data == ObjectData::Arguments(Arguments::Unmapped),
            arguments_properties(final(context).heap.object(object).properties@, args@),
            final(context).heap.same_but_objects(old(context).heap),
            final(context).heap.extends(old(context).heap),
            final(context).heap.wf(),
            final(context).vm == old(context).vm,
            final(context).realm == old(context).realm,
            final(context).interner == old(context).interner,
    {
        let prototype = context.heap.realm_of(&context.realm).intrinsics.object_prototype;
        proof {
            assert(context.heap.realm_wf(context.heap.realms@[context.realm.index as int]));
        }
        let object = context.heap.alloc_object(
            Object {
                prototype: Some(prototype),
                properties: make_properties(args),
                data: ObjectData::Arguments(Arguments::Unmapped),
            },
        );
        assert(context.heap.objects@.drop_last() =~= old(context).heap.objects@);
        object
    }

    /// Creates an arguments object whose elements alias the parameters in
    /// the given environment: element `i`, for `i` below the number of
    /// parameters and of arguments, aliases the binding that the
    /// environment's compile-time environment declares for the name of
    /// parameter `i`, unless a later such parameter has the same name.
    pub fn create_mapped_arguments_object(
        formals: &FormalParameterList,
        args: &[JsValue],
        env: DeclarativeEnvironmentRef,
        context: &mut Context,
    ) -> (object: JsObject)
        requires
            old(context).heap.wf(),
            old(context).heap.has_realm(old(context).realm),
            old(context).heap.has_environment(env),
            args@.len() <= i32::MAX,
        ensures
            object.index == old(context).heap.objects@.len(),
            final(context).heap.objects@.len() == old(context).heap.objects@.len() + 1,
            final(context).heap.objects@.drop_last() == old(context).heap.objects@,
            final(context).heap.object(object).prototype == Some(
                old(context).heap.realm(old(context).realm).intrinsics.object_prototype,
            ),
            final(context).heap.object(object).data matches ObjectData::Arguments(
                Arguments::Mapped(map),
            ) && map.environment == env && map.binding_indices@ == Seq::new(
                mapped_count(formals.parameters@.len() as int, args@.len() as int) as nat,
                |i: int|
                    mapped_binding(
                        old(context).heap.compile_of(env),
                        formals.parameters@,
                        mapped_count(formals.parameters@.len() as int, args@.len() as int),
                        i,
                    ),
            ),
            arguments_properties(final(context).heap.object(object).properties@, args@),
            final(context).heap.same_but_objects(old(context).heap),
            final(context).heap.extends(old(context).heap),
            final(context).heap.wf(),
            final(context).vm == old(context).vm,
            final(context).realm == old(context).realm,
            final(context).interner == old(context).interner,
    {
        let prototype = context.heap.realm_of(&context.realm).intrinsics.object_prototype;
        proof {
            assert(context.heap.realm_wf(context.heap.realms@[context.realm.index as int]));
        }
        let compile_ref = context.heap.environment_of(&env).compile;
        let compile = context.heap.compile_environment_of(&compile_ref);
        let count = if formals.parameters.len() < args.len() {
            formals.parameters.len()
        } else {
            args.len()
        };
        let mut binding_indices: Vec<Option<usize>> = Vec::new();
        let mut i: usize = 0;
        while i < count
            invariant
                0 <= i <= count,
                count == mapped_count(formals.parameters@.len() as int, args@.len() as int),
                *compile == old(context).heap.compile_of(env),
                binding_indices@.len() == i,
                forall|k: int|
                    0 <= k < i ==> binding_indices@[k] == mapped_binding(
                        *compile,
                        formals.parameters@,
                        count as int,
                        k,
                    ),
            decreases count - i,
        {
            let mut shadowed = false;
            let mut j: usize = i + 1;
            while j < count
                invariant
                    i < j <= count,
                    count <= formals.parameters@.len(),
                    shadowed == exists|w: int|
                        i < w < j && (#[trigger] formals.parameters@[w]).name.index()
                            == formals.parameters@[i as int].name.index(),
                decreases count - j,
            {
                if formals.parameters[j].name.same(&formals.parameters[i].name) {
                    shadowed = true;
                }
                j += 1;
            }
            let binding = if shadowed {
                None
            } else {
                compile.position(formals.parameters[i].name)
            };
            binding_indices.push(binding);
            i += 1;
        }
        let object = context.heap.alloc_object(
            Object {
                prototype: Some(prototype),
                properties: make_properties(args),
                data: ObjectData::Arguments(
                    Arguments::Mapped(ParameterMap { binding_indices, environment: env }),
                ),
            },
        );
        proof {
            assert(context.heap.objects@.drop_last() =~= old(context).heap.objects@);
            assert(binding_indices@ =~= Seq::new(
                count as nat,
                |i: int| mapped_binding(*compile, formals.parameters@, count as int, i),
            ));
        }
        object
    }
}

impl Heap {
    /// The value of the binding that element `index` of a parameter map
    /// aliases, where it aliases one that holds a value.
    pub open spec fn mapped_value(self, map: ParameterMap, index: u32) -> Option<JsValue> {
        if index < map.binding_indices@.len() && self.has_environment(map.environment) {
            match map.binding_indices@[index as int] {
                Some(b) => if b < self.environment(map.environment).bindings@.len() {
                    self.environment(map.environment).bindings@[b as int]
                } else {
                    None
                },
                None => None,
            }
        } else {
            None
        }
    }

    /// What element `index` of an arguments object reads: for a mapped
    /// element whose binding holds a value, that value; else the value of
    /// the object's own element.
    pub open spec fn spec_argument(self, object: JsObject, index: u32) -> JsValue {
        match self.object(object).data {
            ObjectData::Arguments(Arguments::Mapped(map)) => match self.mapped_value(map, index) {
                Some(value) => value,
                None => self.spec_get(object, PropertyKeyView::Index(index)),
            },
            _ => self.spec_get(object, PropertyKeyView::Index(index)),
        }
    }

    /// Reads element `index` of an arguments object.
    pub fn argument(&self, object: &JsObject, index: u32) -> (value: JsValue)
        requires
            self.wf(),
            self.has_object(*object),
        ensures
            value == self.spec_argument(*object, index),
    {
        match &self.objects[object.index].data {
            ObjectData::Arguments(Arguments::Mapped(map)) => {
                if (index as usize) < map.binding_indices.len() {
                    if let Some(b) = map.binding_indices[index as usize] {
                        if map.environment.index < self.environments.len() {
                            let env = &self.environments[map.environment.index];
                            if b < env.bindings.len() {
                                if let Some(value) = env.bindings[b] {
                                    return value;
                                }
                            }
                        }
                    }
                }
            },
            _ => {},
        }
        self.get(object, &PropertyKey::Index(index))
    }
}

/// Arguments object mapping. The arguments object of a call reflects a
/// later assignment to a parameter when and only when the function is
/// sloppy and its parameter list is simple.
///
/// `before` is a heap that holds the arguments object of a call of a
/// function with the code `code`, created for the parameter environment
/// `env`; `after` is that heap with `value` stored in the binding `binding`
/// of that environment, which is the binding of parameter `index`. Then
/// element `index` of the arguments object reads `value` afterwards if the
/// function is sloppy and its parameter list is simple, and reads what it
/// read before otherwise.
pub proof fn lemma_arguments_mapping(
    before: Heap,
    after: Heap,
    arguments: JsObject,
    args: Seq<JsValue>,
    code: crate::vm::code_block::CodeBlock,
    env: DeclarativeEnvironmentRef,
    realm: crate::realm::Realm,
    index: u32,
    binding: usize,
    value: JsValue,
)
    requires
        before.is_new_arguments(arguments, args, code, env, realm),
        before.has_environment(env),
        index < mapped_count(code.params.parameters@.len() as int, args.len() as int),
        mapped_binding(
            before.compile_of(env),
            code.params.parameters@,
            mapped_count(code.params.parameters@.len() as int, args.len() as int),
            index as int,
        ) == Some(binding),
        binding < before.environment(env).bindings@.len(),
        after.changed_environment(before, env),
        after.environment(env).bindings@ == before.environment(env).bindings@.update(
            binding as int,
            Some(value),
        ),
    ensures
        !code.strict && code.params.spec_is_simple() ==> after.spec_argument(arguments, index)
            == value,
        code.strict || !code.params.spec_is_simple() ==> after.spec_argument(arguments, index)
            == before.spec_argument(arguments, index),
{
    if code.strict || !code.params.spec_is_simple() {
        lemma_same_objects_same_lookup(before, after, arguments, PropertyKeyView::Index(index));
    }
}

/// A lookup depends on the objects of the heap alone.
pub proof fn lemma_same_objects_same_lookup(
    before: Heap,
    after: Heap,
    object: JsObject,
    key: PropertyKeyView,
)
    requires
        after.objects == before.objects,
    ensures
        after.find_in_chain(object, key) == before.find_in_chain(object, key),
    decreases object.index,
{
    if before.has_object(object) && before.object(object).own_property(key) is None {
        if let Some(p) = before.object(object).prototype {
            if p.index < object.index {
                lemma_same_objects_same_lookup(before, after, p, key);
            }
        }
    }
}

} // verus!
