//! The execution context: the heap, the interner, the current realm and the
//! state of the virtual machine.

use crate::builtins::eval::Eval;
use crate::environments::compile::CompileTimeEnvironment;
use crate::environments::runtime::DeclarativeEnvironment;
use crate::environments::runtime::DeclarativeEnvironmentStack;
use crate::environments::runtime::Environment;
use crate::environments::runtime::EnvironmentSlots;
use crate::heap::stack_wf;
use crate::heap::Heap;
use crate::interner::new_interner;
use crate::object::Object;
use crate::object::ObjectData;
use crate::realm::Intrinsics;
use crate::realm::Realm;
use crate::realm::RealmRecord;
use crate::value::JsObject;
use crate::value::JsValue;
use crate::vm::Vm;
use boa_interner::Interner;
use vstd::prelude::*;

verus! {

/// The execution context.
pub struct Context {
    pub interner: Interner,
    pub heap: Heap,
    pub realm: Realm,
    pub vm: Vm,
}

impl Heap {
    /// Puts a plain object without properties on the heap.
    pub fn alloc_ordinary(&mut self, prototype: Option<JsObject>) -> (handle: JsObject)
        requires
            old(self).wf(),
            prototype matches Some(p) ==> old(self).has_object(p),
        ensures
            handle.index == old(self).objects@.len(),
            final(self).objects@.len() == old(self).objects@.len() + 1,
            final(self).objects@.drop_last() == old(self).objects@,
            final(self).object(handle).prototype == prototype,
            final(self).object(handle).properties@.len() == 0,
            final(self).object(handle).data is Ordinary,
            final(self).same_but_objects(*old(self)),
            final(self).extends(*old(self)),
            final(self).wf(),
    {
        let handle = self.alloc_object(
            Object { prototype, properties: Vec::new(), data: ObjectData::Ordinary },
        );
        assert(self.objects@.drop_last() =~= old(self).objects@);
        handle
    }

    /// Whether the object is a plain object without properties that has the
    /// given prototype.
    pub open spec fn is_plain(self, object: JsObject, prototype: Option<JsObject>) -> bool {
        &&& self.has_object(object)
        &&& self.object(object).prototype == prototype
        &&& self.object(object).properties@.len() == 0
        &&& self.object(object).data is Ordinary
    }

    /// Whether the realm is one that was just created, with the ten
    /// objects from index `first` on: `%Object.prototype%`, which has no
    /// prototype; the prototypes of functions, `async` functions, generator
    /// functions and `async` generator functions, of which the first
    /// inherits from `%Object.prototype%` and the others from the first; the
    /// prototypes of generators, of `async` generators and of promises, and
    /// the global object, which all inherit from `%Object.prototype%`; and
    /// the `eval` function.
    pub open spec fn is_new_realm(self, realm: Realm, first: int) -> bool {
        let record = self.realm(realm);
        let intrinsics = record.intrinsics;
        &&& intrinsics.object_prototype.index == first
        &&& intrinsics.function_prototype.index == first + 1
        &&& intrinsics.async_function_prototype.index == first + 2
        &&& intrinsics.generator_function_prototype.index == first + 3
        &&& intrinsics.async_generator_function_prototype.index == first + 4
        &&& intrinsics.generator.index == first + 5
        &&& intrinsics.async_generator.index == first + 6
        &&& intrinsics.promise_prototype.index == first + 7
        &&& record.global_object.index == first + 8
        &&& intrinsics.eval.index == first + 9
        &&& self.is_eval_function(intrinsics.eval, realm, intrinsics.function_prototype)
        &&& self.is_plain(intrinsics.object_prototype, None)
        &&& self.is_plain(intrinsics.function_prototype, Some(intrinsics.object_prototype))
        &&& self.is_plain(intrinsics.async_function_prototype, Some(intrinsics.function_prototype))
        &&& self.is_plain(
            intrinsics.generator_function_prototype,
            Some(intrinsics.function_prototype),
        )
        &&& self.is_plain(
            intrinsics.async_generator_function_prototype,
            Some(intrinsics.function_prototype),
        )
        &&& self.is_plain(intrinsics.generator, Some(intrinsics.object_prototype))
        &&& self.is_plain(intrinsics.async_generator, Some(intrinsics.object_prototype))
        &&& self.is_plain(intrinsics.promise_prototype, Some(intrinsics.object_prototype))
        &&& self.is_plain(record.global_object, Some(intrinsics.object_prototype))
    }

    /// Creates a realm: its intrinsic objects, its global object and its
    /// global environment, which has no bindings and a compile-time
    /// environment of its own.
    pub fn create_realm(&mut self) -> (realm: Realm)
        requires
            old(self).wf(),
        ensures
            final(self).is_new_realm(realm, old(self).objects@.len() as int),
            forall|i: int|
                0 <= i < old(self).objects@.len() ==> (#[trigger] final(self).objects@[i]) == old(
                    self,
                ).objects@[i],
            final(self).strings@.drop_last() == old(self).strings@,
            final(self).code_blocks == old(self).code_blocks,
            final(self).environments@.drop_last() == old(self).environments@,
            final(self).compile_environments@.drop_last() == old(self).compile_environments@,
            final(self).realms@.drop_last() == old(self).realms@,
            realm.index == old(self).realms@.len(),
            final(self).realms@.len() == old(self).realms@.len() + 1,
            final(self).objects@.len() == old(self).objects@.len() + 10,
            final(self).strings@.len() == old(self).strings@.len() + 1,
            final(self).has_realm(realm),
            final(self).realm(realm).environment.index == old(self).environments@.len(),
            final(self).environments@.len() == old(self).environments@.len() + 1,
            final(self).environment(final(self).realm(realm).environment)@
                == (crate::environments::runtime::EnvironmentView {
                bindings: Seq::empty(),
                compile: crate::environments::compile::CompileTimeEnvironmentRef {
                    index: old(self).compile_environments@.len() as usize,
                },
                poisoned: false,
                with: false,
                slots: Some(EnvironmentSlots::Global),
            }),
            final(self).compile_environments@.len() == old(self).compile_environments@.len() + 1,
            final(self).compile_environments@.last().bindings@.len() == 0,
            final(self).compile_environments@.last().function_scope,
            final(self).compile_environments@.last().environment_index == 0,
            final(self).realm(realm).global_object.index >= old(self).objects@.len(),
            final(self).object(final(self).realm(realm).global_object).properties@.len() == 0,
            final(self).extends(*old(self)),
            final(self).wf(),
    {
        let ghost h0 = *self;
        let object_prototype = self.alloc_ordinary(None);
        let ghost h1 = *self;
        let function_prototype = self.alloc_ordinary(Some(object_prototype));
        let ghost h2 = *self;
        proof {
            h2.lemma_extends_transitive(h1, h0);
        }
        let async_function_prototype = self.alloc_ordinary(Some(function_prototype));
        let ghost h3 = *self;
        proof {
            h3.lemma_extends_transitive(h2, h0);
        }
        let generator_function_prototype = self.alloc_ordinary(Some(function_prototype));
        let ghost h4 = *self;
        proof {
            h4.lemma_extends_transitive(h3, h0);
        }
        let async_generator_function_prototype = self.alloc_ordinary(Some(function_prototype));
        let ghost h5 = *self;
        proof {
            h5.lemma_extends_transitive(h4, h0);
        }
        let generator = self.alloc_ordinary(Some(object_prototype));
        let ghost h6 = *self;
        proof {
            h6.lemma_extends_transitive(h5, h0);
        }
        let async_generator = self.alloc_ordinary(Some(object_prototype));
        let ghost h7 = *self;
        proof {
            h7.lemma_extends_transitive(h6, h0);
        }
        let promise_prototype = self.alloc_ordinary(Some(object_prototype));
        let ghost h8 = *self;
        proof {
            h8.lemma_extends_transitive(h7, h0);
        }
        let global_object = self.alloc_ordinary(Some(object_prototype));
        let ghost h9 = *self;
        proof {
            h9.lemma_extends_transitive(h8, h0);
        }
        let compile = self.alloc_compile_environment(CompileTimeEnvironment::new_global());
        let ghost h10 = *self;
        proof {
            h10.lemma_extends_transitive(h9, h0);
        }
        let environment = self.alloc_environment(DeclarativeEnvironment::new_global(compile));
        let ghost h11 = *self;
        proof {
            h11.lemma_extends_transitive(h10, h0);
        }
        let realm = Realm { index: self.realms.len() };
        let eval = Eval::init(self, realm, function_prototype);
        let ghost h12 = *self;
        self.realms.push(
            RealmRecord {
                intrinsics: Intrinsics {
                    object_prototype,
                    function_prototype,
                    async_function_prototype,
                    generator_function_prototype,
                    async_generator_function_prototype,
                    generator,
                    async_generator,
                    promise_prototype,
                    eval,
                },
                global_object,
                environment,
            },
        );
        proof {
            h12.lemma_extends_transitive(h11, h0);
            self.lemma_extends_transitive(h11, h0);
            lemma_prefix(h11, h12);
            crate::heap::lemma_wf_carries(*self, h11);
            self.lemma_bounded();
            lemma_prefix(h0, h1);
            lemma_prefix(h1, h2);
            lemma_prefix(h2, h3);
            lemma_prefix(h3, h4);
            lemma_prefix(h4, h5);
            lemma_prefix(h5, h6);
            lemma_prefix(h6, h7);
            lemma_prefix(h7, h8);
            lemma_prefix(h8, h9);
            assert(h11.objects == h9.objects);
            assert(self.strings@.drop_last() =~= h0.strings@);
            assert(self.environments@.drop_last() =~= h0.environments@);
            assert(self.compile_environments@.drop_last() =~= h0.compile_environments@);
            assert(self.realms@.drop_last() =~= h0.realms@);
        }
        realm
    }
}

/// A heap that was made from another by appending one object holds the
/// objects of the other unchanged.
proof fn lemma_prefix(before: Heap, after: Heap)
    requires
        after.objects@.len() == before.objects@.len() + 1,
        after.objects@.drop_last() == before.objects@,
    ensures
        forall|i: int|
            0 <= i < before.objects@.len() ==> (#[trigger] after.objects@[i]) == before.objects@[i],
{
    assert forall|i: int| 0 <= i < before.objects@.len() implies (#[trigger] after.objects@[i])
        == before.objects@[i] by {
        assert(after.objects@.drop_last()[i] == after.objects@[i]);
    }
}

impl Context {
    /// Whether the context is well formed: the heap is, the current realm
    /// exists, and the environment stack is well formed and starts with the
    /// global environment of the current realm.
    pub open spec fn wf(self) -> bool {
        &&& self.heap.wf()
        &&& self.heap.has_realm(self.realm)
        &&& stack_wf(self.vm.environments.stack@, self.heap)
        &&& self.vm.environments.stack@[0] == Environment::Declarative(
            self.heap.realm(self.realm).environment,
        )
    }

    /// A context with one realm, whose global environment is the only
    /// environment on the stack, and with empty operand and frame stacks.
    pub fn new() -> (context: Context)
        ensures
            context.wf(),
            context.vm.environments.stack@.len() == 1,
            context.vm.stack@.len() == 0,
            context.vm.frames@.len() == 0,
            context.vm.active_function is None,
            context.realm.index == 0,
            context.heap.is_new_realm(context.realm, 0),
            context.heap.objects@.len() == 10,
            context.heap.strings@.len() == 1,
            context.heap.code_blocks@.len() == 0,
            context.heap.compile_environments@.len() == 1,
            context.heap.realms@.len() == 1,
            context.heap.environments@.len() == 1,
            context.heap.environment(context.heap.realm(context.realm).environment).bindings@.len()
                == 0,
            !context.heap.environment(context.heap.realm(context.realm).environment).poisoned,
            !context.heap.environment(context.heap.realm(context.realm).environment).with,
    {
        let mut heap = Heap::new();
        let realm = heap.create_realm();
        let environment = heap.realm_of(&realm).environment;
        let environments = DeclarativeEnvironmentStack::new(environment);
        Context {
            interner: new_interner(),
            heap,
            realm,
            vm: Vm { frames: Vec::new(), stack: Vec::new(), environments, active_function: None },
        }
    }

    /// The string interner.
    pub fn interner(&self) -> (interner: &Interner)
        ensures
            *interner == self.interner,
    {
        &self.interner
    }

    /// The current realm.
    pub fn realm(&self) -> (realm: Realm)
        ensures
            realm == self.realm,
    {
        self.realm
    }

    /// The global object of the current realm.
    pub fn global_object(&self) -> (object: JsObject)
        requires
            self.heap.has_realm(self.realm),
        ensures
            object == self.heap.realm(self.realm).global_object,
    {
        self.heap.realm_of(&self.realm).global_object
    }

    /// Creates a realm on the heap of this context.
    pub fn create_realm(&mut self) -> (realm: Realm)
        requires
            old(self).wf(),
        ensures
            final(self).wf(),
            final(self).heap.has_realm(realm),
            !old(self).heap.has_realm(realm),
            final(self).heap.is_new_realm(realm, old(self).heap.objects@.len() as int),
            final(self).heap.is_global_environment(final(self).heap.realm(realm).environment),
            !old(self).heap.has_environment(final(self).heap.realm(realm).environment),
            final(self).heap.extends(old(self).heap),
            final(self).vm == old(self).vm,
            final(self).realm == old(self).realm,
            final(self).interner == old(self).interner,
    {
        let realm = self.heap.create_realm();
        proof {
            self.heap.lemma_stack_wf_extends(old(self).heap, self.vm.environments.stack@);
        }
        realm
    }

    /// Makes another realm the current one and returns the realm that was
    /// current. The global environment at the bottom of the environment
    /// stack is replaced with that of the new realm.
    pub fn enter_realm(&mut self, realm: Realm) -> (previous: Realm)
        requires
            old(self).heap.wf(),
            old(self).heap.has_realm(realm),
            old(self).vm.environments.stack@.len() >= 1,
        ensures
            previous == old(self).realm,
            final(self).realm == realm,
            final(self).vm.environments.stack@ == old(self).vm.environments.stack@.update(
                0,
                Environment::Declarative(old(self).heap.realm(realm).environment),
            ),
            final(self).heap == old(self).heap,
            final(self).interner == old(self).interner,
            final(self).vm.stack == old(self).vm.stack,
            final(self).vm.frames == old(self).vm.frames,
            final(self).vm.active_function == old(self).vm.active_function,
            old(self).wf() ==> final(self).wf(),
    {
        let environment = self.heap.realm_of(&realm).environment;
        self.vm.environments.replace_global(environment);
        let previous = self.realm;
        self.realm = realm;
        proof {
            assert(self.heap.realm_wf(self.heap.realms@[realm.index as int]));
        }
        previous
    }

    /// `ToObject` for a value that is neither `null` nor `undefined`: an
    /// object is returned as it is, any other value is wrapped in a new
    /// object whose prototype is `%Object.prototype%`.
    pub fn to_object(&mut self, value: &JsValue) -> (object: JsObject)
        requires
            old(self).heap.wf(),
            old(self).heap.has_realm(old(self).realm),
        ensures
            final(self).heap.wf(),
            final(self).vm == old(self).vm,
            final(self).realm == old(self).realm,
            final(self).interner == old(self).interner,
            final(self).heap.extends(old(self).heap),
            final(self).heap.same_but_objects(old(self).heap),
            match *value {
                JsValue::Object(o) => object == o && final(self).heap == old(self).heap,
                _ => {
                    &&& object.index == old(self).heap.objects@.len()
                    &&& final(self).heap.objects@.len() == old(self).heap.objects@.len() + 1
                    &&& final(self).heap.objects@.drop_last() == old(self).heap.objects@
                    &&& final(self).heap.object(object).prototype == Some(
                        old(self).heap.realm(old(self).realm).intrinsics.object_prototype,
                    )
                    &&& final(self).heap.object(object).properties@.len() == 0
                    &&& final(self).heap.object(object).data == ObjectData::Primitive(*value)
                },
            },
    {
        match value {
            JsValue::Object(o) => *o,
            _ => {
                let prototype = self.heap.realm_of(&self.realm).intrinsics.object_prototype;
                proof {
                    assert(self.heap.realm_wf(self.heap.realms@[self.realm.index as int]));
                }
                let object = self.heap.alloc_object(
                    Object {
                        prototype: Some(prototype),
                        properties: Vec::new(),
                        data: ObjectData::Primitive(*value),
                    },
                );
                proof {
                    assert(self.heap.objects@.drop_last() =~= old(self).heap.objects@);
                }
                object
            },
        }
    }
}

} // verus!
