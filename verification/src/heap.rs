//! The heap: the arenas that hold everything a handle can point to. Nothing
//! is ever removed from an arena, so a handle that is valid stays valid.

use crate::environments::compile::CompileTimeEnvironment;
use crate::environments::compile::CompileTimeEnvironmentRef;
use crate::environments::runtime::DeclarativeEnvironment;
use crate::environments::runtime::DeclarativeEnvironmentRef;
use crate::environments::runtime::Environment;
use crate::environments::runtime::EnvironmentSlots;
use crate::function::Function;
use crate::object::Object;
use crate::realm::Realm;
use crate::realm::RealmRecord;
use crate::value::JsObject;
use crate::value::JsString;
use crate::value::JsValue;
use crate::vm::code_block::CodeBlock;
use crate::vm::code_block::CodeBlockRef;
use vstd::prelude::*;

verus! {

/// The arenas of the heap.
#[derive(Debug)]
pub struct Heap {
    pub strings: Vec<Vec<u16>>,
    pub objects: Vec<Object>,
    pub environments: Vec<DeclarativeEnvironment>,
    pub compile_environments: Vec<CompileTimeEnvironment>,
    pub code_blocks: Vec<CodeBlock>,
    pub realms: Vec<RealmRecord>,
}

/// Whether a stack of environments is well formed in a heap: it is not
/// empty, it starts with a global environment, and all its handles are
/// valid.
pub open spec fn stack_wf(stack: Seq<Environment>, heap: Heap) -> bool {
    &&& stack.len() >= 1
    &&& stack[0] is Declarative
    &&& heap.is_global_environment(stack[0]->Declarative_0)
    &&& forall|i: int|
        0 <= i < stack.len() ==> match #[trigger] stack[i] {
            Environment::Declarative(env) => heap.has_environment(env),
            Environment::Object(object) => heap.has_object(object),
        }
}

impl Heap {
    /// Whether the handle points to an object of this heap.
    pub open spec fn has_object(self, object: JsObject) -> bool {
        object.index < self.objects@.len()
    }

    /// Whether the handle points to a string of this heap.
    pub open spec fn has_string(self, string: JsString) -> bool {
        string.index < self.strings@.len()
    }

    /// Whether the handle points to a declarative environment of this heap.
    pub open spec fn has_environment(self, env: DeclarativeEnvironmentRef) -> bool {
        env.index < self.environments@.len()
    }

    /// Whether the handle points to a compile-time environment of this heap.
    pub open spec fn has_compile_environment(self, env: CompileTimeEnvironmentRef) -> bool {
        env.index < self.compile_environments@.len()
    }

    /// Whether the handle points to a code block of this heap.
    pub open spec fn has_code_block(self, code: CodeBlockRef) -> bool {
        code.index < self.code_blocks@.len()
    }

    /// Whether the handle points to a realm of this heap.
    pub open spec fn has_realm(self, realm: Realm) -> bool {
        realm.index < self.realms@.len()
    }

    /// The object that a handle points to.
    pub open spec fn object(self, object: JsObject) -> Object {
        self.objects@[object.index as int]
    }

    /// The declarative environment that a handle points to.
    pub open spec fn environment(self, env: DeclarativeEnvironmentRef) -> DeclarativeEnvironment {
        self.environments@[env.index as int]
    }

    /// The compile-time environment that a handle points to.
    pub open spec fn compile_environment(
        self,
        env: CompileTimeEnvironmentRef,
    ) -> CompileTimeEnvironment {
        self.compile_environments@[env.index as int]
    }

    /// The compile-time environment of a declarative environment.
    pub open spec fn compile_of(self, env: DeclarativeEnvironmentRef) -> CompileTimeEnvironment {
        self.compile_environment(self.environment(env).compile)
    }

    /// The code block that a handle points to.
    pub open spec fn code_block(self, code: CodeBlockRef) -> CodeBlock {
        self.code_blocks@[code.index as int]
    }

    /// The realm that a handle points to.
    pub open spec fn realm(self, realm: Realm) -> RealmRecord {
        self.realms@[realm.index as int]
    }

    /// Whether the handle points to a function object of this heap.
    pub open spec fn is_function(self, object: JsObject) -> bool {
        self.has_object(object) && self.object(object).data.spec_as_function() is Some
    }

    /// The function data of a function object.
    pub open spec fn function(self, object: JsObject) -> Function {
        self.object(object).data.spec_as_function().unwrap()
    }

    /// Whether the handle points to a global environment of this heap.
    pub open spec fn is_global_environment(self, env: DeclarativeEnvironmentRef) -> bool {
        self.has_environment(env) && self.environment(env).slots == Some(EnvironmentSlots::Global)
    }

    /// The object that a handle points to.
    pub fn object_of(&self, object: &JsObject) -> (found: &Object)
        requires
            self.has_object(*object),
        ensures
            *found == self.object(*object),
    {
        &self.objects[object.index]
    }

    /// The function data of a function object.
    pub fn function_of(&self, object: &JsObject) -> (function: &Function)
        requires
            self.is_function(*object),
        ensures
            *function == self.function(*object),
    {
        match self.objects[object.index].data.as_function() {
            Some(function) => function,
            None => vstd::pervasive::unreached(),
        }
    }

    /// Whether the handle points to an object of this heap.
    pub fn contains_object(&self, object: &JsObject) -> (b: bool)
        ensures
            b == self.has_object(*object),
    {
        object.index < self.objects.len()
    }

    /// Whether the handle points to a function object of this heap.
    pub fn contains_function(&self, object: &JsObject) -> (b: bool)
        ensures
            b == self.is_function(*object),
    {
        object.index < self.objects.len() && self.objects[object.index].data.as_function().is_some()
    }

    /// The declarative environment that a handle points to.
    pub fn environment_of(&self, env: &DeclarativeEnvironmentRef) -> (found: &DeclarativeEnvironment)
        requires
            self.has_environment(*env),
        ensures
            *found == self.environment(*env),
    {
        &self.environments[env.index]
    }

    /// The compile-time environment that a handle points to.
    pub fn compile_environment_of(&self, env: &CompileTimeEnvironmentRef) -> (found:
        &CompileTimeEnvironment)
        requires
            self.has_compile_environment(*env),
        ensures
            *found == self.compile_environment(*env),
    {
        &self.compile_environments[env.index]
    }

    /// The code block that a handle points to.
    pub fn code_block_of(&self, code: &CodeBlockRef) -> (found: &CodeBlock)
        requires
            self.has_code_block(*code),
        ensures
            *found == self.code_block(*code),
    {
        &self.code_blocks[code.index]
    }

    /// The realm that a handle points to.
    pub fn realm_of(&self, realm: &Realm) -> (found: &RealmRecord)
        requires
            self.has_realm(*realm),
        ensures
            *found == self.realm(*realm),
    {
        &self.realms[realm.index]
    }

    /// Whether a function is well formed in this heap: its realm, its code
    /// block and the environments that it closed over are.
    pub open spec fn function_wf(self, function: Function) -> bool {
        &&& self.has_realm(function.realm)
        &&& function.kind.spec_code() matches Some(code) ==> {
            &&& self.has_code_block(code)
            &&& stack_wf(function.kind.spec_environments(), self)
        }
    }

    /// Whether a realm record is well formed in this heap.
    pub open spec fn realm_wf(self, record: RealmRecord) -> bool {
        &&& self.has_object(record.global_object)
        &&& self.is_global_environment(record.environment)
        &&& self.has_object(record.intrinsics.object_prototype)
        &&& self.has_object(record.intrinsics.function_prototype)
        &&& self.has_object(record.intrinsics.async_function_prototype)
        &&& self.has_object(record.intrinsics.generator_function_prototype)
        &&& self.has_object(record.intrinsics.async_generator_function_prototype)
        &&& self.has_object(record.intrinsics.generator)
        &&& self.has_object(record.intrinsics.async_generator)
        &&& self.has_object(record.intrinsics.promise_prototype)
        &&& self.is_function(record.intrinsics.eval)
    }

    /// Whether a code block is well formed in this heap: the compile-time
    /// environments that it names exist.
    pub open spec fn code_block_wf(self, code: CodeBlock) -> bool {
        forall|i: int|
            0 <= i < code.compile_environments@.len() ==> self.has_compile_environment(
                #[trigger] code.compile_environments@[i],
            )
    }

    /// Whether the heap is well formed:
    /// - the prototype of an object is an older object, so that prototype
    ///   chains end;
    /// - every function object is well formed;
    /// - every declarative environment has a compile-time environment;
    /// - every code block and every realm is well formed.
    pub open spec fn wf(self) -> bool {
        &&& forall|i: int|
            0 <= i < self.objects@.len() ==> {
                &&& (#[trigger] self.objects@[i]).prototype matches Some(p) ==> p.index < i
                &&& self.objects@[i].data.spec_as_function() matches Some(f) ==> self.function_wf(f)
            }
        &&& forall|i: int|
            0 <= i < self.environments@.len() ==> self.has_compile_environment(
                (#[trigger] self.environments@[i]).compile,
            )
        &&& forall|i: int|
            0 <= i < self.code_blocks@.len() ==> self.code_block_wf(#[trigger] self.code_blocks@[i])
        &&& forall|i: int| 0 <= i < self.realms@.len() ==> self.realm_wf(#[trigger] self.realms@[i])
    }

    /// Whether this heap is a later state of `old`: nothing was removed, and
    /// of what `old` held only this may differ: environments may have more
    /// bindings, other values in them, another `this` binding, and may have
    /// become poisoned; compile-time environments may have more bindings;
    /// objects may have other properties.
    pub open spec fn extends(self, old: Heap) -> bool {
        &&& self.strings@.len() >= old.strings@.len()
        &&& forall|i: int|
            0 <= i < old.strings@.len() ==> (#[trigger] self.strings@[i]) == old.strings@[i]
        &&& self.objects@.len() >= old.objects@.len()
        &&& forall|i: int|
            0 <= i < old.objects@.len() ==> {
                &&& (#[trigger] self.objects@[i]).prototype == old.objects@[i].prototype
                &&& self.objects@[i].data == old.objects@[i].data
            }
        &&& self.environments@.len() >= old.environments@.len()
        &&& forall|i: int|
            0 <= i < old.environments@.len() ==> {
                &&& (#[trigger] self.environments@[i]).compile == old.environments@[i].compile
                &&& self.environments@[i].with == old.environments@[i].with
                &&& old.environments@[i].poisoned ==> self.environments@[i].poisoned
                &&& self.environments@[i].bindings@.len() >= old.environments@[i].bindings@.len()
                &&& (self.environments@[i].slots is None) == (old.environments@[i].slots is None)
                &&& (self.environments@[i].slots == Some(EnvironmentSlots::Global)) == (
                old.environments@[i].slots == Some(EnvironmentSlots::Global))
            }
        &&& self.compile_environments@.len() >= old.compile_environments@.len()
        &&& forall|i: int|
            0 <= i < old.compile_environments@.len() ==> {
                &&& (#[trigger] self.compile_environments@[i]).function_scope
                    == old.compile_environments@[i].function_scope
                &&& self.compile_environments@[i].environment_index
                    == old.compile_environments@[i].environment_index
                &&& old.compile_environments@[i].bindings@.is_prefix_of(
                    self.compile_environments@[i].bindings@,
                )
            }
        &&& self.code_blocks@.len() >= old.code_blocks@.len()
        &&& forall|i: int|
            0 <= i < old.code_blocks@.len() ==> (#[trigger] self.code_blocks@[i])
                == old.code_blocks@[i]
        &&& self.realms@.len() >= old.realms@.len()
        &&& forall|i: int|
            0 <= i < old.realms@.len() ==> (#[trigger] self.realms@[i]) == old.realms@[i]
    }

    /// A heap without anything in it.
    pub fn new() -> (heap: Heap)
        ensures
            heap.wf(),
            heap.strings@.len() == 0,
            heap.objects@.len() == 0,
            heap.environments@.len() == 0,
            heap.compile_environments@.len() == 0,
            heap.code_blocks@.len() == 0,
            heap.realms@.len() == 0,
    {
        Heap {
            strings: Vec::new(),
            objects: Vec::new(),
            environments: Vec::new(),
            compile_environments: Vec::new(),
            code_blocks: Vec::new(),
            realms: Vec::new(),
        }
    }

    /// Whether only the arena of strings differs from `old`.
    pub open spec fn same_but_strings(self, old: Heap) -> bool {
        &&& self.objects == old.objects
        &&& self.environments == old.environments
        &&& self.compile_environments == old.compile_environments
        &&& self.code_blocks == old.code_blocks
        &&& self.realms == old.realms
    }

    /// Whether only the arena of objects differs from `old`.
    pub open spec fn same_but_objects(self, old: Heap) -> bool {
        &&& self.strings == old.strings
        &&& self.environments == old.environments
        &&& self.compile_environments == old.compile_environments
        &&& self.code_blocks == old.code_blocks
        &&& self.realms == old.realms
    }

    /// Whether only the arena of declarative environments differs from
    /// `old`.
    pub open spec fn same_but_environments(self, old: Heap) -> bool {
        &&& self.strings == old.strings
        &&& self.objects == old.objects
        &&& self.compile_environments == old.compile_environments
        &&& self.code_blocks == old.code_blocks
        &&& self.realms == old.realms
    }

    /// Puts a string on the heap and returns its handle.
    pub fn alloc_string(&mut self, units: Vec<u16>) -> (string: JsString)
        requires
            old(self).wf(),
        ensures
            string.index == old(self).strings@.len(),
            final(self).strings@ == old(self).strings@.push(units),
            final(self).same_but_strings(*old(self)),
            final(self).extends(*old(self)),
            final(self).wf(),
    {
        let index = self.strings.len();
        self.strings.push(units);
        proof {
            lemma_wf_carries(*self, *old(self));
        }
        JsString { index }
    }

    /// Puts an object on the heap and returns its handle. The prototype
    /// must be an object of the heap, and function data must be well
    /// formed.
    pub fn alloc_object(&mut self, object: Object) -> (handle: JsObject)
        requires
            old(self).wf(),
            object.prototype matches Some(p) ==> old(self).has_object(p),
            object.data.spec_as_function() matches Some(f) ==> old(self).function_wf(f),
        ensures
            handle.index == old(self).objects@.len(),
            final(self).objects@ == old(self).objects@.push(object),
            final(self).same_but_objects(*old(self)),
            final(self).extends(*old(self)),
            final(self).wf(),
    {
        let index = self.objects.len();
        self.objects.push(object);
        proof {
            lemma_wf_carries(*self, *old(self));
        }
        JsObject { index }
    }

    /// Puts a declarative environment on the heap and returns its handle.
    pub fn alloc_environment(&mut self, env: DeclarativeEnvironment) -> (handle:
        DeclarativeEnvironmentRef)
        requires
            old(self).wf(),
            old(self).has_compile_environment(env.compile),
        ensures
            handle.index == old(self).environments@.len(),
            final(self).environments@ == old(self).environments@.push(env),
            final(self).same_but_environments(*old(self)),
            final(self).extends(*old(self)),
            final(self).wf(),
    {
        let index = self.environments.len();
        self.environments.push(env);
        proof {
            lemma_wf_carries(*self, *old(self));
        }
        DeclarativeEnvironmentRef { index }
    }

    /// Puts a compile-time environment on the heap and returns its handle.
    pub fn alloc_compile_environment(&mut self, env: CompileTimeEnvironment) -> (handle:
        CompileTimeEnvironmentRef)
        requires
            old(self).wf(),
        ensures
            handle.index == old(self).compile_environments@.len(),
            final(self).compile_environments@ == old(self).compile_environments@.push(env),
            final(self).strings == old(self).strings,
            final(self).objects == old(self).objects,
            final(self).environments == old(self).environments,
            final(self).code_blocks == old(self).code_blocks,
            final(self).realms == old(self).realms,
            final(self).extends(*old(self)),
            final(self).wf(),
    {
        let index = self.compile_environments.len();
        self.compile_environments.push(env);
        proof {
            lemma_wf_carries(*self, *old(self));
        }
        CompileTimeEnvironmentRef { index }
    }

    /// Puts a code block on the heap and returns its handle. The
    /// compile-time environments that it names must exist.
    pub fn alloc_code_block(&mut self, code: CodeBlock) -> (handle: CodeBlockRef)
        requires
            old(self).wf(),
            old(self).code_block_wf(code),
        ensures
            handle.index == old(self).code_blocks@.len(),
            final(self).code_blocks@ == old(self).code_blocks@.push(code),
            final(self).strings == old(self).strings,
            final(self).objects == old(self).objects,
            final(self).environments == old(self).environments,
            final(self).compile_environments == old(self).compile_environments,
            final(self).realms == old(self).realms,
            final(self).extends(*old(self)),
            final(self).wf(),
    {
        let index = self.code_blocks.len();
        self.code_blocks.push(code);
        proof {
            lemma_wf_carries(*self, *old(self));
        }
        CodeBlockRef { index }
    }

    /// Puts a realm on the heap and returns its handle.
    pub fn alloc_realm(&mut self, record: RealmRecord) -> (handle: Realm)
        requires
            old(self).wf(),
            old(self).realm_wf(record),
        ensures
            handle.index == old(self).realms@.len(),
            final(self).realms@ == old(self).realms@.push(record),
            final(self).strings == old(self).strings,
            final(self).objects == old(self).objects,
            final(self).environments == old(self).environments,
            final(self).compile_environments == old(self).compile_environments,
            final(self).code_blocks == old(self).code_blocks,
            final(self).extends(*old(self)),
            final(self).wf(),
    {
        let index = self.realms.len();
        self.realms.push(record);
        proof {
            lemma_wf_carries(*self, *old(self));
        }
        Realm { index }
    }

    /// Whether this heap differs from `old` in one declarative environment
    /// at most, and there in the bindings and the poison flag at most.
    pub open spec fn changed_environment(self, old: Heap, env: DeclarativeEnvironmentRef) -> bool {
        &&& self.same_but_environments(old)
        &&& self.environments@.len() == old.environments@.len()
        &&& forall|i: int|
            0 <= i < old.environments@.len() && i != env.index ==> (#[trigger] self.environments@[i])
                == old.environments@[i]
        &&& self.environment(env).compile == old.environment(env).compile
        &&& self.environment(env).with == old.environment(env).with
        &&& self.environment(env).slots == old.environment(env).slots
    }

    /// Stores a value, or the absence of one, in a binding.
    pub fn store_binding(
        &mut self,
        env: DeclarativeEnvironmentRef,
        index: usize,
        value: Option<JsValue>,
    )
        requires
            old(self).wf(),
            old(self).has_environment(env),
            index < old(self).environment(env).bindings@.len(),
        ensures
            final(self).changed_environment(*old(self), env),
            final(self).environment(env).bindings@ == old(self).environment(env).bindings@.update(
                index as int,
                value,
            ),
            final(self).environment(env).poisoned == old(self).environment(env).poisoned,
            final(self).extends(*old(self)),
            final(self).wf(),
    {
        self.environments[env.index].bindings[index] = value;
        proof {
            lemma_wf_carries(*self, *old(self));
        }
    }

    /// Marks an environment as poisoned.
    pub fn poison(&mut self, env: DeclarativeEnvironmentRef)
        requires
            old(self).wf(),
            old(self).has_environment(env),
        ensures
            final(self).changed_environment(*old(self), env),
            final(self).environment(env).bindings == old(self).environment(env).bindings,
            final(self).environment(env).poisoned,
            final(self).extends(*old(self)),
            final(self).wf(),
    {
        self.environments[env.index].poisoned = true;
        proof {
            lemma_wf_carries(*self, *old(self));
        }
    }

    /// Appends uninitialized bindings to an environment until it has
    /// `count` of them; an environment that has as many is left as it is.
    pub fn grow_bindings(&mut self, env: DeclarativeEnvironmentRef, count: usize)
        requires
            old(self).wf(),
            old(self).has_environment(env),
        ensures
            final(self).changed_environment(*old(self), env),
            final(self).environment(env).bindings@ == grown(
                old(self).environment(env).bindings@,
                count as int,
            ),
            final(self).environment(env).poisoned == old(self).environment(env).poisoned,
            final(self).extends(*old(self)),
            final(self).wf(),
    {
        while self.environments[env.index].bindings.len() < count
            invariant
                self.has_environment(env),
                self.changed_environment(*old(self), env),
                self.environment(env).poisoned == old(self).environment(env).poisoned,
                old(self).environment(env).bindings@.len() <= self.environment(env).bindings@.len(),
                self.environment(env).bindings@.len() <= count || self.environment(env).bindings@
                    == old(self).environment(env).bindings@,
                self.environment(env).bindings@ == grown(
                    old(self).environment(env).bindings@,
                    self.environment(env).bindings@.len() as int,
                ),
            decreases count - self.environment(env).bindings@.len(),
        {
            self.environments[env.index].bindings.push(None);
            assert(self.environment(env).bindings@ =~= grown(
                old(self).environment(env).bindings@,
                self.environment(env).bindings@.len() as int,
            ));
        }
        proof {
            assert(self.environment(env).bindings@ =~= grown(
                old(self).environment(env).bindings@,
                count as int,
            ));
            lemma_wf_carries(*self, *old(self));
        }
    }

    /// The arenas are vectors, so their lengths fit in a `usize`.
    pub proof fn lemma_bounded(self)
        ensures
            self.strings@.len() <= usize::MAX,
            self.objects@.len() <= usize::MAX,
            self.environments@.len() <= usize::MAX,
            self.compile_environments@.len() <= usize::MAX,
            self.code_blocks@.len() <= usize::MAX,
            self.realms@.len() <= usize::MAX,
    {
        assert(self.strings.len() <= usize::MAX);
        assert(self.objects.len() <= usize::MAX);
        assert(self.environments.len() <= usize::MAX);
        assert(self.compile_environments.len() <= usize::MAX);
        assert(self.code_blocks.len() <= usize::MAX);
        assert(self.realms.len() <= usize::MAX);
    }

    /// Extension is transitive. In particular an environment that is
    /// poisoned stays poisoned through any number of steps.
    pub proof fn lemma_extends_transitive(self, middle: Heap, old: Heap)
        requires
            self.extends(middle),
            middle.extends(old),
        ensures
            self.extends(old),
    {
        assert forall|i: int| 0 <= i < old.compile_environments@.len() implies {
            &&& (#[trigger] self.compile_environments@[i]).function_scope
                == old.compile_environments@[i].function_scope
            &&& self.compile_environments@[i].environment_index
                == old.compile_environments@[i].environment_index
            &&& old.compile_environments@[i].bindings@.is_prefix_of(
                self.compile_environments@[i].bindings@,
            )
        } by {
            let a = old.compile_environments@[i].bindings@;
            let b = middle.compile_environments@[i].bindings@;
            let c = self.compile_environments@[i].bindings@;
            assert(a.is_prefix_of(b));
            assert(b.is_prefix_of(c));
            assert(a =~= c.subrange(0, a.len() as int)) by {
                assert(a == b.subrange(0, a.len() as int));
                assert(b == c.subrange(0, b.len() as int));
            }
        }
    }

    /// Poison monotonicity. An environment that is poisoned is poisoned in
    /// every later state of the heap: once set, the flag is never cleared
    /// while the environment lives, and environments live as long as the
    /// heap. Every operation of this crate that changes a heap leaves a
    /// later state of it.
    pub proof fn lemma_poison_stays(self, old: Heap, env: DeclarativeEnvironmentRef)
        requires
            self.extends(old),
            old.has_environment(env),
            old.environment(env).poisoned,
        ensures
            self.has_environment(env),
            self.environment(env).poisoned,
    {
    }

    /// A stack that is well formed in a heap is well formed in every later
    /// state of that heap.
    pub proof fn lemma_stack_wf_extends(self, old: Heap, stack: Seq<Environment>)
        requires
            self.extends(old),
            stack_wf(stack, old),
        ensures
            stack_wf(stack, self),
    {
        assert(old.is_global_environment(stack[0]->Declarative_0));
    }
}

/// The bindings extended with uninitialized ones up to the length `count`;
/// the bindings themselves where they are as long already.
pub open spec fn grown(bindings: Seq<Option<JsValue>>, count: int) -> Seq<Option<JsValue>> {
    if count <= bindings.len() {
        bindings
    } else {
        bindings + Seq::new((count - bindings.len()) as nat, |i: int| None::<JsValue>)
    }
}

/// A heap that extends a well formed heap is well formed, provided that what
/// it holds beyond the old heap is well formed too.
pub proof fn lemma_wf_carries(new: Heap, old: Heap)
    requires
        old.wf(),
        new.extends(old),
        forall|i: int|
            old.objects@.len() <= i < new.objects@.len() ==> {
                &&& (#[trigger] new.objects@[i]).prototype matches Some(p) ==> p.index < i
                &&& new.objects@[i].data.spec_as_function() matches Some(f) ==> new.function_wf(f)
            },
        forall|i: int|
            old.environments@.len() <= i < new.environments@.len()
                ==> new.has_compile_environment((#[trigger] new.environments@[i]).compile),
        forall|i: int|
            old.code_blocks@.len() <= i < new.code_blocks@.len() ==> new.code_block_wf(
                #[trigger] new.code_blocks@[i],
            ),
        forall|i: int|
            old.realms@.len() <= i < new.realms@.len() ==> new.realm_wf(#[trigger] new.realms@[i]),
    ensures
        new.wf(),
{
    assert forall|i: int| 0 <= i < new.objects@.len() implies {
        &&& (#[trigger] new.objects@[i]).prototype matches Some(p) ==> p.index < i
        &&& new.objects@[i].data.spec_as_function() matches Some(f) ==> new.function_wf(f)
    } by {
        if i < old.objects@.len() {
            assert(new.objects@[i].data == old.objects@[i].data);
            if let Some(f) = old.objects@[i].data.spec_as_function() {
                lemma_function_wf_extends(new, old, f);
            }
        }
    }
    assert forall|i: int| 0 <= i < new.environments@.len() implies new.has_compile_environment(
        (#[trigger] new.environments@[i]).compile,
    ) by {
        if i < old.environments@.len() {
            assert(old.has_compile_environment(old.environments@[i].compile));
        }
    }
    assert forall|i: int| 0 <= i < new.code_blocks@.len() implies new.code_block_wf(
        #[trigger] new.code_blocks@[i],
    ) by {
        if i < old.code_blocks@.len() {
            assert(old.code_block_wf(old.code_blocks@[i]));
        }
    }
    assert forall|i: int| 0 <= i < new.realms@.len() implies new.realm_wf(
        #[trigger] new.realms@[i],
    ) by {
        if i < old.realms@.len() {
            assert(old.realm_wf(old.realms@[i]));
            assert(old.is_global_environment(old.realms@[i].environment));
        }
    }
}

/// A function that is well formed in a heap is well formed in every later
/// state of that heap.
pub proof fn lemma_function_wf_extends(new: Heap, old: Heap, function: Function)
    requires
        new.extends(old),
        old.function_wf(function),
    ensures
        new.function_wf(function),
{
    if function.kind.spec_code() is Some {
        new.lemma_stack_wf_extends(old, function.kind.spec_environments());
    }
}

} // verus!
