//! Calling a function object.
//!
//! A call cannot run the callee's code itself. It prepares everything the
//! code needs and then stops with a request: to run the interpreter on the
//! frame that was pushed, or to run a function of the host. Whoever serves
//! the request hands the outcome to [`JsObject::complete_call`], which puts
//! the caller's context back and yields the result of the call.

use crate::builtins::arguments::arguments_properties;
use crate::builtins::arguments::mapped_binding;
use crate::builtins::arguments::mapped_count;
use crate::context::Context;
use crate::environments::runtime::BindingLocator;
use crate::environments::runtime::DeclarativeEnvironmentRef;
use crate::environments::runtime::DeclarativeEnvironmentStack;
use crate::environments::runtime::Environment;
use crate::environments::runtime::EnvironmentView;
use crate::error::JsError;
use crate::error::JsNativeError;
use crate::error::JsNativeErrorKind;
use crate::error::JsResult;
use crate::function::FunctionKind;
use crate::function::NativeFunction;
use crate::function::ThisMode;
use crate::heap::stack_wf;
use crate::heap::Heap;
use crate::object::Arguments;
use crate::object::Generator;
use crate::object::GeneratorContext;
use crate::object::GeneratorState;
use crate::object::Object;
use crate::object::ObjectData;
use crate::object::PropertyKey;
use crate::object::PropertyKeyView;
use crate::realm::Realm;
use crate::value::JsObject;
use crate::value::JsValue;
use crate::vm::code_block::CodeBlock;
use crate::vm::code_block::CodeBlockRef;
use crate::vm::prologue::count_of;
use crate::vm::prologue::fresh_environments;
use crate::vm::prologue::ContextCleanupGuard;
use crate::vm::CallFrame;
use crate::vm::PromiseCapability;
use vstd::prelude::*;
use vstd::string::*;

verus! {

/// What a call keeps while its request is served.
#[derive(Debug)]
pub enum CallResume {
    /// A function of the host runs: only the guard is kept.
    Native { guard: ContextCleanupGuard },
    /// The interpreter runs: the guard, the environment stack and the
    /// operand stack of the caller, and the promise of an `async` function.
    Scripted {
        guard: ContextCleanupGuard,
        environments: DeclarativeEnvironmentStack,
        stack: Vec<JsValue>,
        promise_capability: Option<PromiseCapability>,
    },
}

/// How a call goes on.
#[derive(Debug)]
pub enum CallStep {
    /// The call is over, with this result.
    Done(JsResult<JsValue>),
    /// The host has to run one of its functions with this `this` value and
    /// these arguments, and then complete the call.
    Native { function: NativeFunction, this: JsValue, args: Vec<JsValue>, resume: CallResume },
    /// The interpreter has to run the frame on top of the frame stack, and
    /// then complete the call.
    Run(CallResume),
}

/// The message of the error raised when a class constructor is called.
pub open spec fn class_constructor_message() -> Seq<char> {
    "class constructor cannot be invoked without 'new'"@
}

/// The code units of `prototype`.
pub open spec fn prototype_key() -> Seq<u16> {
    seq![112u16, 114u16, 111u16, 116u16, 111u16, 116u16, 121u16, 112u16, 101u16]
}

/// The property key `prototype`.
pub fn prototype_property_key() -> (key: PropertyKey)
    ensures
        key@ == PropertyKeyView::String(prototype_key()),
{
    let mut units: Vec<u16> = Vec::new();
    units.push(112);
    units.push(114);
    units.push(111);
    units.push(116);
    units.push(111);
    units.push(116);
    units.push(121);
    units.push(112);
    units.push(101);
    assert(units@ =~= prototype_key());
    PropertyKey::String(units)
}

/// Whether a call has to wrap its `this` value in an object: the function
/// binds `this`, is not strict, and the value is neither `null`, nor
/// `undefined`, nor an object.
pub open spec fn wraps_this(lexical: bool, strict: bool, this: JsValue) -> bool {
    !lexical && !strict && this != JsValue::Null && this != JsValue::Undefined && !(this is Object)
}

/// The `this` value that a call binds: none for a function whose `this` is
/// lexical; the value as passed for a strict function; else the global
/// object for `null` and `undefined`, an object as passed, and the wrapper
/// object for any other value.
pub open spec fn this_argument(
    lexical: bool,
    strict: bool,
    this: JsValue,
    global_object: JsObject,
    wrapper: JsObject,
) -> Option<JsValue> {
    if lexical {
        None
    } else if strict {
        Some(this)
    } else if this == JsValue::Null || this == JsValue::Undefined {
        Some(JsValue::Object(global_object))
    } else if this is Object {
        Some(this)
    } else {
        Some(JsValue::Object(wrapper))
    }
}

/// The operand stack that a call starts with: the arguments, padded with
/// `undefined` to the number of formal parameters, in reverse order.
pub open spec fn placed_arguments(args: Seq<JsValue>, param_count: int) -> Seq<JsValue> {
    let count = if param_count > args.len() {
        param_count
    } else {
        args.len() as int
    };
    Seq::new(
        count as nat,
        |i: int|
            if count - 1 - i < args.len() {
                args[count - 1 - i]
            } else {
                JsValue::Undefined
            },
    )
}

/// The operand stack that a call starts with.
pub fn place_arguments(args: &[JsValue], param_count: usize) -> (stack: Vec<JsValue>)
    ensures
        stack@ == placed_arguments(args@, param_count as int),
{
    let count = if param_count > args.len() {
        param_count
    } else {
        args.len()
    };
    let mut stack: Vec<JsValue> = Vec::new();
    let mut i: usize = 0;
    while i < count
        invariant
            0 <= i <= count,
            count == (if param_count > args@.len() {
                param_count as int
            } else {
                args@.len() as int
            }),
            stack@.len() == i,
            forall|k: int|
                0 <= k < i ==> stack@[k] == (if count - 1 - k < args@.len() {
                    args@[count - 1 - k]
                } else {
                    JsValue::Undefined
                }),
        decreases count - i,
    {
        let source = count - 1 - i;
        if source < args.len() {
            stack.push(args[source]);
        } else {
            stack.push(JsValue::Undefined);
        }
        i += 1;
    }
    assert(stack@ =~= placed_arguments(args@, param_count as int));
    stack
}

/// A copy of the arguments.
pub fn copy_arguments(args: &[JsValue]) -> (copy: Vec<JsValue>)
    ensures
        copy@ == args@,
{
    let mut copy: Vec<JsValue> = Vec::new();
    let mut i: usize = 0;
    while i < args.len()
        invariant
            0 <= i <= args@.len(),
            copy@ == args@.subrange(0, i as int),
        decreases args@.len() - i,
    {
        copy.push(args[i]);
        assert(args@.subrange(0, i + 1) =~= args@.subrange(0, i as int).push(args@[i as int]));
        i += 1;
    }
    assert(args@.subrange(0, args@.len() as int) =~= args@);
    copy
}

/// The outcome of running code, with an error stamped with the realm that
/// it escapes from.
pub open spec fn stamped(outcome: JsResult<JsValue>, realm: Realm) -> JsResult<JsValue> {
    match outcome {
        Ok(value) => Ok(value),
        Err(err) => Err(err.spec_inject_realm(realm)),
    }
}

/// Stamps an error outcome with the realm that it escapes from.
pub fn stamp(outcome: JsResult<JsValue>, realm: Realm) -> (result: JsResult<JsValue>)
    ensures
        result == stamped(outcome, realm),
{
    match outcome {
        Ok(value) => Ok(value),
        Err(err) => Err(err.inject_realm(realm)),
    }
}

impl Heap {
    /// Whether `after` is this heap with `count` objects appended and the
    /// arena of environments possibly changed; the other arenas are the same.
    pub open spec fn grew_by(self, after: Heap, count: int) -> bool {
        &&& after.strings == self.strings
        &&& after.compile_environments == self.compile_environments
        &&& after.code_blocks == self.code_blocks
        &&& after.realms == self.realms
        &&& after.objects@.len() == self.objects@.len() + count
        &&& forall|i: int|
            0 <= i < self.objects@.len() ==> (#[trigger] after.objects@[i]) == self.objects@[i]
    }

    /// Whether the object is a pending promise of the given realm, without
    /// properties.
    pub open spec fn is_new_promise(self, object: JsObject, realm: Realm) -> bool {
        &&& self.has_object(object)
        &&& self.object(object).prototype == Some(self.realm(realm).intrinsics.promise_prototype)
        &&& self.object(object).properties@.len() == 0
        &&& self.object(object).data is Promise
    }

    /// Whether the object is the wrapper of a primitive value in the given
    /// realm, without properties.
    pub open spec fn is_new_wrapper(self, object: JsObject, value: JsValue, realm: Realm) -> bool {
        &&& self.has_object(object)
        &&& self.object(object).prototype == Some(self.realm(realm).intrinsics.object_prototype)
        &&& self.object(object).properties@.len() == 0
        &&& self.object(object).data == ObjectData::Primitive(value)
    }

    /// Whether the object is the arguments object of a call of a function
    /// with the given code: unmapped when the function is strict or its
    /// parameter list is not simple, and mapped to the environment `env`
    /// exactly when the function is sloppy and its parameter list is simple.
    pub open spec fn is_new_arguments(
        self,
        object: JsObject,
        args: Seq<JsValue>,
        code: CodeBlock,
        env: DeclarativeEnvironmentRef,
        realm: Realm,
    ) -> bool {
        &&& self.has_object(object)
        &&& self.object(object).prototype == Some(self.realm(realm).intrinsics.object_prototype)
        &&& arguments_properties(self.object(object).properties@, args)
        &&& if code.strict || !code.params.spec_is_simple() {
            self.object(object).data == ObjectData::Arguments(Arguments::Unmapped)
        } else {
            self.object(object).data matches ObjectData::Arguments(Arguments::Mapped(map))
                && map.environment == env && map.binding_indices@ == Seq::new(
                mapped_count(code.params.parameters@.len() as int, args.len() as int) as nat,
                |i: int|
                    mapped_binding(
                        self.compile_of(env),
                        code.params.parameters@,
                        mapped_count(code.params.parameters@.len() as int, args.len() as int),
                        i,
                    ),
            )
        }
    }

    /// What the environment at `index` holds once a function was entered
    /// and its arguments object stored: what it held before, or what the
    /// entry made it, with the arguments object in the binding that the
    /// locator names if the locator names this environment.
    pub open spec fn entered_environment(
        self,
        shapes: Seq<EnvironmentView>,
        stack: Seq<Environment>,
        binding: Option<BindingLocator>,
        arguments: JsObject,
        index: int,
    ) -> EnvironmentView {
        let base = if index < self.environments@.len() {
            self.environments@[index]@
        } else {
            shapes[index - self.environments@.len()]
        };
        match binding {
            Some(locator) => if locator.environment_index < stack.len()
                && stack[locator.environment_index as int] == Environment::Declarative(
                DeclarativeEnvironmentRef { index: index as usize },
            ) {
                EnvironmentView {
                    bindings: base.bindings.update(
                        locator.binding_index as int,
                        Some(JsValue::Object(arguments)),
                    ),
                    ..base
                }
            } else {
                base
            },
            None => base,
        }
    }

    /// Whether the locator of the arguments object names a binding of a
    /// declarative environment on the stack that a function entry leaves.
    pub open spec fn arguments_slot(
        self,
        shapes: Seq<EnvironmentView>,
        stack: Seq<Environment>,
        locator: BindingLocator,
    ) -> bool {
        &&& locator.environment_index < stack.len()
        &&& stack[locator.environment_index as int] matches Environment::Declarative(env)
            && env.index < self.environments@.len() + shapes.len() && locator.binding_index < (
        if env.index < self.environments@.len() {
            self.environments@[env.index as int]@
        } else {
            shapes[env.index - self.environments@.len()]
        }).bindings.len()
    }
}

impl Heap {
    /// Whether `after` is this heap with a function entered: the
    /// environments of the entry pushed on the environments that the
    /// function closed over, and the arguments object, if the function uses
    /// it, created as the object with index `first_object` and stored.
    #[verifier::opaque]
    pub open spec fn function_entered(
        self,
        after: Heap,
        captured: Seq<Environment>,
        stack: Seq<Environment>,
        code: CodeBlock,
        class_object: Option<JsObject>,
        function: JsObject,
        this: Option<JsValue>,
        new_target: Option<JsObject>,
        lexical: bool,
        args: Seq<JsValue>,
        first_object: int,
        realm: Realm,
    ) -> bool {
        let shapes = self.prologue_shapes(
            captured,
            code,
            class_object,
            function,
            this,
            new_target,
            lexical,
        );
        let arguments = JsObject { index: first_object as usize };
        &&& stack == captured + fresh_environments(
            self.environments@.len() as int,
            shapes.len() as int,
        )
        &&& after.environments@.len() == self.environments@.len() + shapes.len()
        &&& forall|i: int|
            0 <= i < after.environments@.len() ==> (#[trigger] after.environments@[i])@
                == self.entered_environment(shapes, stack, code.arguments_binding, arguments, i)
        &&& code.arguments_binding is Some ==> stack.last() is Declarative && after.is_new_arguments(
            arguments,
            args,
            code,
            stack.last()->Declarative_0,
            realm,
        )
    }
}

impl Context {
    /// Creates the promise that an `async` function resolves: a pending
    /// promise of the current realm.
    pub fn new_promise_capability(&mut self) -> (capability: PromiseCapability)
        requires
            old(self).heap.wf(),
            old(self).heap.has_realm(old(self).realm),
        ensures
            capability.promise.index == old(self).heap.objects@.len(),
            old(self).heap.grew_by(final(self).heap, 1),
            final(self).heap.environments == old(self).heap.environments,
            final(self).heap.is_new_promise(capability.promise, old(self).realm),
            final(self).heap.extends(old(self).heap),
            final(self).heap.wf(),
            final(self).vm == old(self).vm,
            final(self).realm == old(self).realm,
            final(self).interner == old(self).interner,
    {
        let prototype = self.heap.realm_of(&self.realm).intrinsics.promise_prototype;
        proof {
            assert(self.heap.realm_wf(self.heap.realms@[self.realm.index as int]));
        }
        let promise = self.heap.alloc_object(
            Object { prototype: Some(prototype), properties: Vec::new(), data: ObjectData::Promise },
        );
        PromiseCapability { promise }
    }

    /// The `this` value that a call binds. A primitive value passed to a
    /// sloppy function is wrapped in a new object.
    pub fn function_this(&mut self, lexical: bool, strict: bool, this: &JsValue) -> (bound: Option<
        JsValue,
    >)
        requires
            old(self).heap.wf(),
            old(self).heap.has_realm(old(self).realm),
        ensures
            bound == this_argument(
                lexical,
                strict,
                *this,
                old(self).heap.realm(old(self).realm).global_object,
                JsObject { index: old(self).heap.objects@.len() as usize },
            ),
            old(self).heap.grew_by(final(self).heap, count_of(wraps_this(lexical, strict, *this))),
            final(self).heap.environments == old(self).heap.environments,
            wraps_this(lexical, strict, *this) ==> final(self).heap.is_new_wrapper(
                JsObject { index: old(self).heap.objects@.len() as usize },
                *this,
                old(self).realm,
            ),
            final(self).heap.extends(old(self).heap),
            final(self).heap.wf(),
            final(self).vm == old(self).vm,
            final(self).realm == old(self).realm,
            final(self).interner == old(self).interner,
    {
        proof {
            self.heap.lemma_bounded();
        }
        if lexical {
            None
        } else if strict {
            Some(*this)
        } else if this.is_null_or_undefined() {
            Some(JsValue::Object(self.global_object()))
        } else {
            Some(JsValue::Object(self.to_object(this)))
        }
    }

    /// Creates the arguments object of a call and stores it where the code
    /// block says, if the function uses it.
    fn bind_arguments(&mut self, code: CodeBlockRef, args: &[JsValue])
        requires
            old(self).heap.wf(),
            old(self).heap.has_realm(old(self).realm),
            old(self).heap.has_code_block(code),
            stack_wf(old(self).vm.environments.stack@, old(self).heap),
            old(self).vm.environments.stack@.last() is Declarative,
            args@.len() <= i32::MAX,
            old(self).heap.code_block(code).arguments_binding matches Some(locator) ==> {
                &&& locator.environment_index < old(self).vm.environments.stack@.len()
                &&& old(self).vm.environments.stack@[locator.environment_index as int] matches Environment::Declarative(
                    env,
                ) && locator.binding_index < old(self).heap.environment(env).bindings@.len()
            },
        ensures
            final(self).vm == old(self).vm,
            final(self).realm == old(self).realm,
            final(self).interner == old(self).interner,
            final(self).heap.extends(old(self).heap),
            final(self).heap.wf(),
            old(self).heap.grew_by(
                final(self).heap,
                count_of(old(self).heap.code_block(code).arguments_binding is Some),
            ),
            final(self).heap.environments@.len() == old(self).heap.environments@.len(),
            match old(self).heap.code_block(code).arguments_binding {
                Some(locator) => {
                    let env = old(
                        self,
                    ).vm.environments.stack@[locator.environment_index as int]->Declarative_0;
                    let arguments = JsObject { index: old(self).heap.objects@.len() as usize };
                    &&& final(self).heap.is_new_arguments(
                        arguments,
                        args@,
                        old(self).heap.code_block(code),
                        old(self).vm.environments.stack@.last()->Declarative_0,
                        old(self).realm,
                    )
                    &&& forall|i: int|
                        0 <= i < old(self).heap.environments@.len() && i != env.index ==> (
                        #[trigger] final(self).heap.environments@[i]) == old(
                            self,
                        ).heap.environments@[i]
                    &&& final(self).heap.environment(env)@ == (EnvironmentView {
                        bindings: old(self).heap.environment(env).bindings@.update(
                            locator.binding_index as int,
                            Some(JsValue::Object(arguments)),
                        ),
                        ..old(self).heap.environment(env)@
                    })
                },
                None => final(self).heap == old(self).heap,
            },
    {
        proof {
            self.heap.lemma_bounded();
        }
        let binding = self.heap.code_block_of(&code).arguments_binding;
        if let Some(binding) = binding {
            let strict = self.heap.code_block_of(&code).strict;
            let simple = self.heap.code_block_of(&code).params.is_simple();
            let arguments_obj = if strict || !simple {
                Arguments::create_unmapped_arguments_object(args, self)
            } else {
                let env = self.vm.environments.current();
                let formals = self.heap.code_block_of(&code).params.duplicate();
                Arguments::create_mapped_arguments_object(
                    &formals,
                    args,
                    env.declarative_expect(),
                    self,
                )
            };
            let ghost h1 = self.heap;
            proof {
                assert(h1.objects@.drop_last() =~= old(self).heap.objects@);
                assert forall|i: int| 0 <= i < old(self).heap.objects@.len() implies (
                #[trigger] h1.objects@[i]) == old(self).heap.objects@[i] by {
                    assert(h1.objects@.drop_last()[i] == h1.objects@[i]);
                }
            }
            self.vm.environments.put_declarative_value(
                binding.environment_index(),
                binding.binding_index(),
                JsValue::Object(arguments_obj),
                &mut self.heap,
            );
            proof {
                self.heap.lemma_extends_transitive(h1, old(self).heap);
            }
        }
    }
}

impl Context {
    /// Enters a function: replaces the environment stack with the
    /// environments that the function closed over, pushes the environments
    /// of the entry on them, and creates and stores the arguments object if
    /// the function uses it. Returns the environment stack that was
    /// replaced.
    pub fn enter_function(
        &mut self,
        code: CodeBlockRef,
        captured: DeclarativeEnvironmentStack,
        class_object: Option<JsObject>,
        function: JsObject,
        this: Option<JsValue>,
        new_target: Option<JsObject>,
        lexical: bool,
        args: &[JsValue],
    ) -> (saved: DeclarativeEnvironmentStack)
        requires
            old(self).heap.wf(),
            old(self).heap.has_realm(old(self).realm),
            old(self).heap.has_code_block(code),
            old(self).heap.can_enter(old(self).heap.code_block(code), class_object is Some),
            stack_wf(captured.stack@, old(self).heap),
            args@.len() <= i32::MAX,
            old(self).heap.code_block(code).arguments_binding matches Some(locator) ==> old(
                self,
            ).heap.arguments_slot(
                old(self).heap.prologue_shapes(
                    captured.stack@,
                    old(self).heap.code_block(code),
                    class_object,
                    function,
                    this,
                    new_target,
                    lexical,
                ),
                captured.stack@ + fresh_environments(
                    old(self).heap.environments@.len() as int,
                    old(self).heap.code_block(code).prologue_len(class_object is Some),
                ),
                locator,
            ),
        ensures
            saved.stack@ == old(self).vm.environments.stack@,
            old(self).heap.grew_by(
                final(self).heap,
                count_of(old(self).heap.code_block(code).arguments_binding is Some),
            ),
            old(self).heap.function_entered(
                final(self).heap,
                captured.stack@,
                final(self).vm.environments.stack@,
                old(self).heap.code_block(code),
                class_object,
                function,
                this,
                new_target,
                lexical,
                args@,
                old(self).heap.objects@.len() as int,
                old(self).realm,
            ),
            final(self).heap.extends(old(self).heap),
            final(self).heap.wf(),
            stack_wf(final(self).vm.environments.stack@, final(self).heap),
            final(self).realm == old(self).realm,
            final(self).interner == old(self).interner,
            final(self).vm.stack == old(self).vm.stack,
            final(self).vm.frames == old(self).vm.frames,
            final(self).vm.active_function == old(self).vm.active_function,
    {
        let ghost h0 = self.heap;
        let ghost cb = h0.code_block(code);
        let ghost shapes = h0.prologue_shapes(
            captured.stack@,
            cb,
            class_object,
            function,
            this,
            new_target,
            lexical,
        );
        let ghost base = h0.environments@.len() as int;
        let mut environments = captured;
        std::mem::swap(&mut environments, &mut self.vm.environments);
        self.push_call_environments(code, class_object, function, this, new_target, lexical);
        let ghost h1 = self.heap;
        let ghost stack = self.vm.environments.stack@;
        proof {
            h1.lemma_bounded();
            assert(shapes.len() == cb.prologue_len(class_object is Some));
            assert(stack.last() == stack[captured.stack@.len() + shapes.len() - 1]);
            if let Some(locator) = cb.arguments_binding {
                let env = stack[locator.environment_index as int]->Declarative_0;
                if env.index >= base {
                    assert(h1.environments@[base + (env.index - base)]@ == shapes[env.index
                        - base]);
                }
            }
        }
        self.bind_arguments(code, args);
        proof {
            reveal(Heap::function_entered);
            self.heap.lemma_extends_transitive(h1, h0);
            self.heap.lemma_stack_wf_extends(h1, stack);
            let arguments = JsObject { index: h0.objects@.len() as usize };
            assert forall|i: int| 0 <= i < self.heap.environments@.len() implies (
            #[trigger] self.heap.environments@[i])@ == h0.entered_environment(
                shapes,
                stack,
                cb.arguments_binding,
                arguments,
                i,
            ) by {
                if i >= base {
                    assert(h1.environments@[base + (i - base)]@ == shapes[i - base]);
                }
            }
        }
        environments
    }
}

impl CallResume {
    /// The guard that the call keeps.
    pub open spec fn guard(self) -> ContextCleanupGuard {
        match self {
            CallResume::Native { guard } => guard,
            CallResume::Scripted { guard, .. } => guard,
        }
    }
}

/// The frame that a call pushes.
pub open spec fn call_frame(
    code_block: CodeBlockRef,
    code: CodeBlock,
    arg_count: int,
    promise_capability: Option<PromiseCapability>,
) -> CallFrame {
    CallFrame {
        code_block,
        pc: 0,
        param_count: code.params.parameters@.len() as usize,
        arg_count: arg_count as usize,
        promise_capability,
        async_generator: None,
    }
}

impl Heap {
    /// Whether a scripted function can be called with the given `this`
    /// value without running out of what its code block provides: see
    /// [`Heap::can_enter`] and [`Heap::arguments_slot`].
    pub open spec fn can_call(self, callee: JsObject, this: JsValue) -> bool {
        let f = self.function(callee);
        let code = self.code_block(f.kind.spec_code().unwrap());
        let lexical = code.this_mode == ThisMode::Lexical;
        let class_object = f.kind.spec_class_object();
        let bound = this_argument(
            lexical,
            code.strict,
            this,
            self.realm(f.realm).global_object,
            JsObject { index: (self.objects@.len() + count_of(f.kind is Async)) as usize },
        );
        &&& self.can_enter(code, class_object is Some)
        &&& code.arguments_binding matches Some(locator) ==> self.arguments_slot(
            self.prologue_shapes(
                f.kind.spec_environments(),
                code,
                class_object,
                callee,
                bound,
                None,
                lexical,
            ),
            f.kind.spec_environments() + fresh_environments(
                self.environments@.len() as int,
                code.prologue_len(class_object is Some),
            ),
            locator,
        )
    }

    /// Whether `after` is this heap with a call of the scripted function
    /// `callee` prepared, and `stack` the environment stack of the callee:
    /// - for an `async` function that is no generator, a pending promise was
    ///   created first;
    /// - then the wrapper object of `this`, where one is needed;
    /// - then the function was entered (see [`Heap::function_entered`]) with
    ///   the `this` value of [`this_argument`] and no `new.target`;
    /// - `extra` more objects were created after that.
    pub open spec fn call_entered(
        self,
        after: Heap,
        stack: Seq<Environment>,
        callee: JsObject,
        this: JsValue,
        args: Seq<JsValue>,
        extra: int,
    ) -> bool {
        let f = self.function(callee);
        let code = self.code_block(f.kind.spec_code().unwrap());
        let lexical = code.this_mode == ThisMode::Lexical;
        let objects = self.objects@.len() as int;
        let promises = count_of(f.kind is Async);
        let wrappers = count_of(wraps_this(lexical, code.strict, this));
        &&& self.grew_by(
            after,
            promises + wrappers + count_of(code.arguments_binding is Some) + extra,
        )
        &&& f.kind is Async ==> after.is_new_promise(JsObject { index: objects as usize }, f.realm)
        &&& wrappers == 1 ==> after.is_new_wrapper(
            JsObject { index: (objects + promises) as usize },
            this,
            f.realm,
        )
        &&& self.function_entered(
            after,
            f.kind.spec_environments(),
            stack,
            code,
            f.kind.spec_class_object(),
            callee,
            this_argument(
                lexical,
                code.strict,
                this,
                self.realm(f.realm).global_object,
                JsObject { index: (objects + promises) as usize },
            ),
            None,
            lexical,
            args,
            objects + promises + wrappers,
            f.realm,
        )
    }
}

/// A call is entered when its promise and its wrapper object were created
/// and the function was entered after that.
pub proof fn lemma_call_entered(
    h0: Heap,
    h1: Heap,
    h2: Heap,
    h3: Heap,
    stack: Seq<Environment>,
    callee: JsObject,
    this: JsValue,
    args: Seq<JsValue>,
)
    requires
        h0.is_function(callee),
        h0.function(callee).kind.spec_code() is Some,
        h0.grew_by(h1, count_of(h0.function(callee).kind is Async)),
        h1.environments == h0.environments,
        h0.function(callee).kind is Async ==> h1.is_new_promise(
            JsObject { index: h0.objects@.len() as usize },
            h0.function(callee).realm,
        ),
        h1.grew_by(
            h2,
            count_of(
                wraps_this(
                    h0.code_block(h0.function(callee).kind.spec_code().unwrap()).this_mode
                        == ThisMode::Lexical,
                    h0.code_block(h0.function(callee).kind.spec_code().unwrap()).strict,
                    this,
                ),
            ),
        ),
        h2.environments == h1.environments,
        wraps_this(
            h0.code_block(h0.function(callee).kind.spec_code().unwrap()).this_mode
                == ThisMode::Lexical,
            h0.code_block(h0.function(callee).kind.spec_code().unwrap()).strict,
            this,
        ) ==> h2.is_new_wrapper(
            JsObject { index: h1.objects@.len() as usize },
            this,
            h0.function(callee).realm,
        ),
        h2.grew_by(
            h3,
            count_of(
                h0.code_block(
                    h0.function(callee).kind.spec_code().unwrap(),
                ).arguments_binding is Some,
            ),
        ),
        h2.function_entered(
            h3,
            h0.function(callee).kind.spec_environments(),
            stack,
            h0.code_block(h0.function(callee).kind.spec_code().unwrap()),
            h0.function(callee).kind.spec_class_object(),
            callee,
            this_argument(
                h0.code_block(h0.function(callee).kind.spec_code().unwrap()).this_mode
                    == ThisMode::Lexical,
                h0.code_block(h0.function(callee).kind.spec_code().unwrap()).strict,
                this,
                h0.realm(h0.function(callee).realm).global_object,
                JsObject { index: h1.objects@.len() as usize },
            ),
            None,
            h0.code_block(h0.function(callee).kind.spec_code().unwrap()).this_mode
                == ThisMode::Lexical,
            args,
            h2.objects@.len() as int,
            h0.function(callee).realm,
        ),
    ensures
        h0.call_entered(h3, stack, callee, this, args, 0),
{
    reveal(Heap::function_entered);
    h0.lemma_bounded();
    h1.lemma_bounded();
    h2.lemma_bounded();
    h3.lemma_bounded();
    let f = h0.function(callee);
    let code = h0.code_block(f.kind.spec_code().unwrap());
    let lexical = code.this_mode == ThisMode::Lexical;
    let bound = this_argument(
        lexical,
        code.strict,
        this,
        h0.realm(f.realm).global_object,
        JsObject { index: h1.objects@.len() as usize },
    );
    let shapes2 = h2.prologue_shapes(
        f.kind.spec_environments(),
        code,
        f.kind.spec_class_object(),
        callee,
        bound,
        None,
        lexical,
    );
    let shapes0 = h0.prologue_shapes(
        f.kind.spec_environments(),
        code,
        f.kind.spec_class_object(),
        callee,
        bound,
        None,
        lexical,
    );
    assert(shapes2 == shapes0);
    let arguments = JsObject { index: h2.objects@.len() as usize };
    assert forall|i: int| 0 <= i < h3.environments@.len() implies (#[trigger] h3.environments@[i])@
        == h0.entered_environment(shapes0, stack, code.arguments_binding, arguments, i) by {
        assert(h3.environments@[i]@ == h2.entered_environment(
            shapes2,
            stack,
            code.arguments_binding,
            arguments,
            i,
        ));
    }
    if f.kind is Async {
        assert(h3.objects@[h0.objects@.len() as int] == h1.objects@[h0.objects@.len() as int]);
    }
    if wraps_this(lexical, code.strict, this) {
        assert(h3.objects@[h1.objects@.len() as int] == h2.objects@[h1.objects@.len() as int]);
    }
}

/// What can be called in a heap can be entered once the promise and the
/// wrapper object of the call were created.
pub proof fn lemma_can_call(h0: Heap, h2: Heap, callee: JsObject, this: JsValue)
    requires
        h0.is_function(callee),
        h0.function(callee).kind.spec_code() is Some,
        h0.can_call(callee, this),
        h2.environments == h0.environments,
        h2.compile_environments == h0.compile_environments,
        h2.code_blocks == h0.code_blocks,
        h2.realms == h0.realms,
    ensures
        ({
            let f = h0.function(callee);
            let code = h0.code_block(f.kind.spec_code().unwrap());
            let lexical = code.this_mode == ThisMode::Lexical;
            let bound = this_argument(
                lexical,
                code.strict,
                this,
                h0.realm(f.realm).global_object,
                JsObject { index: (h0.objects@.len() + count_of(f.kind is Async)) as usize },
            );
            &&& h2.can_enter(code, f.kind.spec_class_object() is Some)
            &&& code.arguments_binding matches Some(locator) ==> h2.arguments_slot(
                h2.prologue_shapes(
                    f.kind.spec_environments(),
                    code,
                    f.kind.spec_class_object(),
                    callee,
                    bound,
                    None,
                    lexical,
                ),
                f.kind.spec_environments() + fresh_environments(
                    h2.environments@.len() as int,
                    code.prologue_len(f.kind.spec_class_object() is Some),
                ),
                locator,
            )
        }),
{
    let f = h0.function(callee);
    let code = h0.code_block(f.kind.spec_code().unwrap());
    let lexical = code.this_mode == ThisMode::Lexical;
    let bound = this_argument(
        lexical,
        code.strict,
        this,
        h0.realm(f.realm).global_object,
        JsObject { index: (h0.objects@.len() + count_of(f.kind is Async)) as usize },
    );
    assert(h2.prologue_shapes(
        f.kind.spec_environments(),
        code,
        f.kind.spec_class_object(),
        callee,
        bound,
        None,
        lexical,
    ) == h0.prologue_shapes(
        f.kind.spec_environments(),
        code,
        f.kind.spec_class_object(),
        callee,
        bound,
        None,
        lexical,
    ));
}

impl JsObject {
    /// Prepares the call of a scripted function whose realm was entered
    /// already: creates the promise of an `async` function, binds `this`,
    /// enters the function, replaces the operand stack with the arguments
    /// and pushes the frame.
    fn prepare_call(
        &self,
        this: &JsValue,
        args: &[JsValue],
        guard: ContextCleanupGuard,
        context: &mut Context,
    ) -> (resume: CallResume)
        requires
            old(context).heap.wf(),
            old(context).heap.is_function(*self),
            old(context).heap.function(*self).kind.spec_code() is Some,
            old(context).realm == old(context).heap.function(*self).realm,
            old(context).heap.can_call(*self, *this),
            args@.len() <= i32::MAX,
        ensures
            resume matches CallResume::Scripted {
                guard: kept,
                environments,
                stack,
                promise_capability,
            } && kept == guard && environments.stack@ == old(context).vm.environments.stack@
                && stack@ == old(context).vm.stack@ && promise_capability == (if old(
                context,
            ).heap.function(*self).kind is Async {
                Some(
                    PromiseCapability {
                        promise: JsObject { index: old(context).heap.objects@.len() as usize },
                    },
                )
            } else {
                None
            }) && final(context).vm.frames@ == old(context).vm.frames@.push(
                call_frame(
                    old(context).heap.function(*self).kind.spec_code().unwrap(),
                    old(context).heap.code_block(
                        old(context).heap.function(*self).kind.spec_code().unwrap(),
                    ),
                    args@.len() as int,
                    promise_capability,
                ),
            ),
            old(context).heap.call_entered(
                final(context).heap,
                final(context).vm.environments.stack@,
                *self,
                *this,
                args@,
                0,
            ),
            final(context).vm.stack@ == placed_arguments(
                args@,
                old(context).heap.code_block(
                    old(context).heap.function(*self).kind.spec_code().unwrap(),
                ).params.parameters@.len() as int,
            ),
            final(context).vm.active_function == old(context).vm.active_function,
            final(context).realm == old(context).realm,
            final(context).interner == old(context).interner,
            final(context).heap.extends(old(context).heap),
            final(context).heap.wf(),
            stack_wf(final(context).vm.environments.stack@, final(context).heap),
    {
        let ghost h0 = context.heap;
        proof {
            h0.lemma_bounded();
            assert(h0.function_wf(h0.function(*self)));
        }
        let (code, environments, class_object, is_async, is_generator) = context.heap.function_of(
            self,
        ).scripted_parts();
        let promise_capability = if is_async && !is_generator {
            Some(context.new_promise_capability())
        } else {
            None
        };
        let ghost h1 = context.heap;
        let lexical = matches!(context.heap.code_block_of(&code).this_mode, ThisMode::Lexical);
        let strict = context.heap.code_block_of(&code).strict;
        let bound = context.function_this(lexical, strict, this);
        let ghost h2 = context.heap;
        proof {
            h1.lemma_bounded();
            h2.lemma_bounded();
            h2.lemma_extends_transitive(h1, h0);
            h2.lemma_stack_wf_extends(h0, environments.stack@);
            lemma_can_call(h0, h2, *self, *this);
        }
        let saved = context.enter_function(
            code,
            environments,
            class_object,
            *self,
            bound,
            None,
            lexical,
            args,
        );
        proof {
            context.heap.lemma_extends_transitive(h2, h0);
            lemma_call_entered(
                h0,
                h1,
                h2,
                context.heap,
                context.vm.environments.stack@,
                *self,
                *this,
                args@,
            );
        }
        let param_count = context.heap.code_block_of(&code).params.len();
        let mut stack = place_arguments(args, param_count);
        std::mem::swap(&mut context.vm.stack, &mut stack);
        let frame = CallFrame {
            code_block: code,
            pc: 0,
            param_count,
            arg_count: args.len(),
            promise_capability,
            async_generator: None,
        };
        context.vm.push_frame(frame);
        CallResume::Scripted { guard, environments: saved, stack, promise_capability }
    }
}

impl Heap {
    /// The prototype of the generators that a generator function creates:
    /// the value of its `prototype` property if that is one of the first
    /// `limit` objects of the heap, else the intrinsic prototype of the realm
    /// for generators of its kind.
    pub open spec fn generator_prototype(
        self,
        callee: JsObject,
        realm: Realm,
        is_async: bool,
        limit: int,
    ) -> JsObject {
        let fallback = if is_async {
            self.realm(realm).intrinsics.async_generator
        } else {
            self.realm(realm).intrinsics.generator
        };
        match self.spec_get(callee, PropertyKeyView::String(prototype_key())) {
            JsValue::Object(o) => if o.index < limit {
                o
            } else {
                fallback
            },
            _ => fallback,
        }
    }

    /// The generator data of a generator object.
    pub open spec fn generator(self, object: JsObject) -> Generator {
        match self.object(object).data {
            ObjectData::Generator(generator) => generator,
            ObjectData::AsyncGenerator(generator) => generator,
            _ => arbitrary(),
        }
    }

    /// Whether the object is a generator that has not started, of the given
    /// kind and with the given prototype, which holds the given context. The
    /// frame of an `async` generator points back at the generator.
    pub open spec fn is_new_generator(
        self,
        object: JsObject,
        prototype: JsObject,
        is_async: bool,
        operands: Seq<JsValue>,
        active_function: Option<JsObject>,
        frame: CallFrame,
        realm: Realm,
    ) -> bool {
        &&& self.has_object(object)
        &&& self.object(object).prototype == Some(prototype)
        &&& self.object(object).properties@.len() == 0
        &&& if is_async {
            self.object(object).data is AsyncGenerator
        } else {
            self.object(object).data is Generator
        }
        &&& self.generator(object).state == GeneratorState::SuspendedStart
        &&& self.generator(object).context matches Some(context) && context.stack@ == operands
            && context.active_function == active_function && context.call_frame == Some(
            CallFrame {
                async_generator: if is_async {
                    Some(object)
                } else {
                    None
                },
                ..frame
            },
        ) && context.realm == realm
    }
}

impl Context {
    /// Whether `post` has the realm, the active function, the environment
    /// stack, the operand stack and the frames of `pre`.
    pub open spec fn restored(pre: Context, post: Context) -> bool {
        &&& post.realm == pre.realm
        &&& post.interner == pre.interner
        &&& post.vm.active_function == pre.vm.active_function
        &&& post.vm.environments.stack@ == pre.vm.environments.stack@
        &&& post.vm.stack@ == pre.vm.stack@
        &&& post.vm.frames@ == pre.vm.frames@
    }

    /// What a call of `callee` does to the context `pre`, by the kind of the
    /// function:
    /// - a function of the host: the realm of the callee is entered, and
    ///   the host is asked to run the function, with `undefined` as `this`
    ///   where the function is a constructor;
    /// - a class constructor: a `TypeError` of the callee's realm, and
    ///   nothing changes;
    /// - another ordinary function or an `async` function: the realm of the
    ///   callee is entered, the call is prepared (see
    ///   [`Heap::call_entered`]), the operand stack holds the arguments,
    ///   the frame is pushed, and the interpreter is asked to run it; the
    ///   request keeps the environment stack and the operand stack of the
    ///   caller;
    /// - a generator function: the call is prepared in the same way, the
    ///   prepared context is stored in a new generator, the context of the
    ///   caller is put back and the generator is the result.
    pub open spec fn called(
        pre: Context,
        post: Context,
        callee: JsObject,
        this: JsValue,
        args: Seq<JsValue>,
        step: CallStep,
    ) -> bool {
        let f = pre.heap.function(callee);
        let guard = ContextCleanupGuard {
            old_realm: pre.realm,
            old_active_function: pre.vm.active_function,
        };
        let entered_stack = pre.vm.environments.stack@.update(
            0,
            Environment::Declarative(pre.heap.realm(f.realm).environment),
        );
        match f.kind {
            FunctionKind::Native { function, constructor } => {
                &&& step matches CallStep::Native { function: asked, this: bound, args: passed, resume }
                    && asked == function && bound == (if constructor is Some {
                    JsValue::Undefined
                } else {
                    this
                }) && passed@ == args && resume == (CallResume::Native { guard })
                &&& post.heap == pre.heap
                &&& post.interner == pre.interner
                &&& post.realm == f.realm
                &&& post.vm.active_function == Some(callee)
                &&& post.vm.environments.stack@ == entered_stack
                &&& post.vm.stack@ == pre.vm.stack@
                &&& post.vm.frames@ == pre.vm.frames@
            },
            _ => {
                let code_block = f.kind.spec_code().unwrap();
                let code = pre.heap.code_block(code_block);
                if f.kind is Ordinary && code.is_class_constructor {
                    &&& step matches CallStep::Done(Err(JsError::Native(err))) && err.is(
                        JsNativeErrorKind::Type,
                        class_constructor_message(),
                    ) && err.realm == Some(f.realm)
                    &&& post.heap == pre.heap
                    &&& Context::restored(pre, post)
                } else if f.kind.is_generator() {
                    let lexical = code.this_mode == ThisMode::Lexical;
                    let generator = JsObject {
                        index: (pre.heap.objects@.len() + count_of(
                            wraps_this(lexical, code.strict, this),
                        ) + count_of(code.arguments_binding is Some)) as usize,
                    };
                    &&& step == CallStep::Done(Ok(JsValue::Object(generator)))
                    &&& Context::restored(pre, post)
                    &&& post.heap.is_new_generator(
                        generator,
                        pre.heap.generator_prototype(
                            callee,
                            f.realm,
                            f.kind.is_async(),
                            generator.index as int,
                        ),
                        f.kind.is_async(),
                        placed_arguments(args, code.params.parameters@.len() as int),
                        Some(callee),
                        call_frame(code_block, code, args.len() as int, None),
                        f.realm,
                    )
                    &&& pre.heap.call_entered(
                        post.heap,
                        post.heap.generator(generator).context.unwrap().environments.stack@,
                        callee,
                        this,
                        args,
                        1,
                    )
                } else {
                    let promise = if f.kind is Async {
                        Some(
                            PromiseCapability {
                                promise: JsObject { index: pre.heap.objects@.len() as usize },
                            },
                        )
                    } else {
                        None
                    };
                    &&& step matches CallStep::Run(
                        CallResume::Scripted { guard: kept, environments, stack, promise_capability },
                    ) && kept == guard && environments.stack@ == entered_stack && stack@
                        == pre.vm.stack@ && promise_capability == promise
                    &&& post.interner == pre.interner
                    &&& post.realm == f.realm
                    &&& post.vm.active_function == Some(callee)
                    &&& pre.heap.call_entered(
                        post.heap,
                        post.vm.environments.stack@,
                        callee,
                        this,
                        args,
                        0,
                    )
                    &&& post.vm.stack@ == placed_arguments(
                        args,
                        code.params.parameters@.len() as int,
                    )
                    &&& post.vm.frames@ == pre.vm.frames@.push(
                        call_frame(code_block, code, args.len() as int, promise),
                    )
                }
            },
        }
    }

    /// What completing a call does to the context `pre` that the host or
    /// the interpreter left: the realm and the active function of the
    /// caller are put back; after the interpreter, the frame of the call is
    /// popped and the environment stack and the operand stack of the caller
    /// are put back too. The bottom of the environment stack is the global
    /// environment of the caller's realm.
    pub open spec fn call_completed(pre: Context, post: Context, resume: CallResume) -> bool {
        let guard = resume.guard();
        &&& post.heap == pre.heap
        &&& post.interner == pre.interner
        &&& post.realm == guard.old_realm
        &&& post.vm.active_function == guard.old_active_function
        &&& match resume {
            CallResume::Native { .. } => {
                &&& post.vm.environments.stack@ == pre.vm.environments.stack@.update(
                    0,
                    Environment::Declarative(pre.heap.realm(guard.old_realm).environment),
                )
                &&& post.vm.stack@ == pre.vm.stack@
                &&& post.vm.frames@ == pre.vm.frames@
            },
            CallResume::Scripted { environments, stack, .. } => {
                &&& post.vm.environments.stack@ == environments.stack@.update(
                    0,
                    Environment::Declarative(pre.heap.realm(guard.old_realm).environment),
                )
                &&& post.vm.stack@ == stack@
                &&& post.vm.frames@ == pre.vm.frames@.drop_last()
            },
        }
    }
}

/// The result of a call whose request was served with `outcome`: the
/// promise for an `async` function, else the outcome, with an error stamped
/// with the realm of the callee.
pub open spec fn call_result(resume: CallResume, outcome: JsResult<JsValue>, realm: Realm) -> JsResult<
    JsValue,
> {
    match resume {
        CallResume::Scripted { promise_capability: Some(capability), .. } => Ok(
            JsValue::Object(capability.promise),
        ),
        _ => stamped(outcome, realm),
    }
}

impl JsObject {
    /// Stores the prepared context of a generator function's call in a new
    /// generator and puts the context of the caller back.
    fn suspend_at_start(&self, resume: CallResume, is_async: bool, context: &mut Context) -> (generator:
        JsObject)
        requires
            old(context).heap.wf(),
            old(context).heap.has_realm(old(context).realm),
            old(context).heap.has_object(*self),
            old(context).vm.frames@.len() >= 1,
            resume is Scripted,
        ensures
            generator.index == old(context).heap.objects@.len(),
            old(context).heap.grew_by(final(context).heap, 1),
            final(context).heap.environments == old(context).heap.environments,
            final(context).heap.is_new_generator(
                generator,
                old(context).heap.generator_prototype(
                    *self,
                    old(context).realm,
                    is_async,
                    old(context).heap.objects@.len() as int,
                ),
                is_async,
                old(context).vm.stack@,
                old(context).vm.active_function,
                old(context).vm.frames@.last(),
                old(context).realm,
            ),
            final(context).heap.generator(generator).context.unwrap().environments.stack@ == old(
                context,
            ).vm.environments.stack@,
            final(context).vm.environments.stack@ == resume->Scripted_environments.stack@,
            final(context).vm.stack@ == resume->Scripted_stack@,
            final(context).vm.frames@ == old(context).vm.frames@.drop_last(),
            final(context).vm.active_function == old(context).vm.active_function,
            final(context).realm == old(context).realm,
            final(context).interner == old(context).interner,
            final(context).heap.extends(old(context).heap),
            final(context).heap.wf(),
    {
        proof {
            context.heap.lemma_bounded();
            assert(context.heap.realm_wf(context.heap.realms@[context.realm.index as int]));
        }
        let frame = match context.vm.pop_frame() {
            Some(frame) => frame,
            None => vstd::pervasive::unreached(),
        };
        let (mut environments, mut stack) = match resume {
            CallResume::Scripted { environments, stack, .. } => (environments, stack),
            CallResume::Native { .. } => vstd::pervasive::unreached(),
        };
        std::mem::swap(&mut environments, &mut context.vm.environments);
        std::mem::swap(&mut context.vm.stack, &mut stack);
        let intrinsics = context.heap.realm_of(&context.realm).intrinsics;
        let fallback = if is_async {
            intrinsics.async_generator
        } else {
            intrinsics.generator
        };
        let prototype = match context.heap.get(self, &prototype_property_key()) {
            JsValue::Object(o) => if context.heap.contains_object(&o) {
                o
            } else {
                fallback
            },
            _ => fallback,
        };
        let generator = JsObject { index: context.heap.objects.len() };
        let data = Generator {
            state: GeneratorState::SuspendedStart,
            context: Some(
                GeneratorContext {
                    environments,
                    stack,
                    active_function: context.vm.active_function,
                    call_frame: Some(
                        CallFrame {
                            async_generator: if is_async {
                                Some(generator)
                            } else {
                                None
                            },
                            ..frame
                        },
                    ),
                    realm: context.realm,
                },
            ),
        };
        context.heap.alloc_object(
            Object {
                prototype: Some(prototype),
                properties: Vec::new(),
                data: if is_async {
                    ObjectData::AsyncGenerator(data)
                } else {
                    ObjectData::Generator(data)
                },
            },
        )
    }

    /// Calls this function object with the given `this` value and
    /// arguments. See [`Context::called`] for what each kind of function
    /// does.
    pub fn call_internal(&self, this: &JsValue, args: &[JsValue], context: &mut Context) -> (step:
        CallStep)
        requires
            old(context).wf(),
            old(context).heap.is_function(*self),
            args@.len() <= i32::MAX,
            old(context).heap.function(*self).kind matches FunctionKind::Native { .. } || (old(
                context,
            ).heap.function(*self).kind is Ordinary && old(context).heap.code_block(
                old(context).heap.function(*self).kind.spec_code().unwrap(),
            ).is_class_constructor) || old(context).heap.can_call(*self, *this),
        ensures
            Context::called(*old(context), *final(context), *self, *this, args@, step),
            final(context).heap.extends(old(context).heap),
            final(context).heap.wf(),
            final(context).heap.has_realm(final(context).realm),
            stack_wf(final(context).vm.environments.stack@, final(context).heap),
    {
        let ghost pre = *context;
        proof {
            pre.heap.lemma_bounded();
            assert(pre.heap.function_wf(pre.heap.function(*self)));
            assert(pre.heap.realm_wf(pre.heap.realms@[pre.realm.index as int]));
        }
        let realm = context.heap.function_of(self).realm;
        let guard = ContextCleanupGuard::new(context, realm, *self);
        let function = context.heap.function_of(self);
        match &function.kind {
            FunctionKind::Native { function, constructor } => {
                let function = *function;
                let bound = if constructor.is_some() {
                    JsValue::Undefined
                } else {
                    *this
                };
                return CallStep::Native {
                    function,
                    this: bound,
                    args: copy_arguments(args),
                    resume: CallResume::Native { guard },
                };
            },
            FunctionKind::Ordinary { code, .. } => {
                if context.heap.code_block_of(code).is_class_constructor {
                    let err = JsNativeError::typ().with_message(
                        String::from_str("class constructor cannot be invoked without 'new'"),
                    ).with_realm(context.realm);
                    guard.release(context);
                    proof {
                        assert(context.vm.environments.stack@ =~= pre.vm.environments.stack@);
                    }
                    return CallStep::Done(Err(JsError::Native(err)));
                }
            },
            _ => {},
        }
        let is_generator = matches!(
            &function.kind,
            FunctionKind::Generator { .. } | FunctionKind::AsyncGenerator { .. }
        );
        let is_async = matches!(&function.kind, FunctionKind::AsyncGenerator { .. });
        let resume = self.prepare_call(this, args, guard, context);
        if is_generator {
            let ghost prepared = *context;
            let generator = self.suspend_at_start(resume, is_async, context);
            proof {
                context.heap.lemma_extends_transitive(prepared.heap, pre.heap);
                lemma_call_entered_more(
                    pre.heap,
                    prepared.heap,
                    context.heap,
                    prepared.vm.environments.stack@,
                    *self,
                    *this,
                    args@,
                );
                lemma_generator_prototype(
                    pre.heap,
                    prepared.heap,
                    *self,
                    realm,
                    is_async,
                    prepared.heap.objects@.len() as int,
                );
            }
            guard.release(context);
            proof {
                assert(context.vm.environments.stack@ =~= pre.vm.environments.stack@);
                assert(context.vm.frames@ =~= pre.vm.frames@);
            }
            CallStep::Done(Ok(JsValue::Object(generator)))
        } else {
            CallStep::Run(resume)
        }
    }

    /// Completes a call whose request was served with the given outcome:
    /// puts the context of the caller back and returns the result of the
    /// call. For an `async` function the result is its promise, whatever
    /// the outcome; otherwise it is the outcome, with an error stamped with
    /// the realm of the callee.
    pub fn complete_call(resume: CallResume, outcome: JsResult<JsValue>, context: &mut Context) -> (result:
        JsResult<JsValue>)
        requires
            old(context).heap.wf(),
            old(context).heap.has_realm(resume.guard().old_realm),
            match resume {
                CallResume::Native { .. } => old(context).vm.environments.stack@.len() >= 1,
                CallResume::Scripted { environments, .. } => environments.stack@.len() >= 1 && old(
                    context,
                ).vm.frames@.len() >= 1,
            },
        ensures
            result == call_result(resume, outcome, old(context).realm),
            Context::call_completed(*old(context), *final(context), resume),
    {
        let result = stamp(outcome, context.realm);
        match resume {
            CallResume::Native { guard } => {
                guard.release(context);
                result
            },
            CallResume::Scripted { guard, environments, stack, promise_capability } => {
                context.vm.pop_frame();
                let mut environments = environments;
                let mut stack = stack;
                std::mem::swap(&mut environments, &mut context.vm.environments);
                std::mem::swap(&mut context.vm.stack, &mut stack);
                guard.release(context);
                match promise_capability {
                    Some(capability) => Ok(JsValue::Object(capability.promise)),
                    None => result,
                }
            },
        }
    }
}

/// A call that is entered stays entered when one more object is created.
pub proof fn lemma_call_entered_more(
    h0: Heap,
    h1: Heap,
    h2: Heap,
    stack: Seq<Environment>,
    callee: JsObject,
    this: JsValue,
    args: Seq<JsValue>,
)
    requires
        h0.is_function(callee),
        h0.function(callee).kind.spec_code() is Some,
        h0.call_entered(h1, stack, callee, this, args, 0),
        h1.grew_by(h2, 1),
        h2.environments == h1.environments,
    ensures
        h0.call_entered(h2, stack, callee, this, args, 1),
{
    reveal(Heap::function_entered);
    h0.lemma_bounded();
    h1.lemma_bounded();
    h2.lemma_bounded();
    let f = h0.function(callee);
    let code = h0.code_block(f.kind.spec_code().unwrap());
    let lexical = code.this_mode == ThisMode::Lexical;
    let objects = h0.objects@.len() as int;
    let promises = count_of(f.kind is Async);
    let wrappers = count_of(wraps_this(lexical, code.strict, this));
    if f.kind is Async {
        assert(h2.objects@[objects] == h1.objects@[objects]);
    }
    if wrappers == 1 {
        assert(h2.objects@[objects + promises] == h1.objects@[objects + promises]);
    }
    if code.arguments_binding is Some {
        assert(h2.objects@[objects + promises + wrappers] == h1.objects@[objects + promises
            + wrappers]);
    }
}

/// The prototype that a generator function gives its generators does not
/// change when objects are created.
pub proof fn lemma_generator_prototype(
    h0: Heap,
    h1: Heap,
    callee: JsObject,
    realm: Realm,
    is_async: bool,
    limit: int,
)
    requires
        h0.has_object(callee),
        h1.realms == h0.realms,
        h1.objects@.len() >= h0.objects@.len(),
        forall|i: int|
            0 <= i < h0.objects@.len() ==> (#[trigger] h1.objects@[i]) == h0.objects@[i],
    ensures
        h1.generator_prototype(callee, realm, is_async, limit) == h0.generator_prototype(
            callee,
            realm,
            is_async,
            limit,
        ),
{
    let key = PropertyKeyView::String(prototype_key());
    lemma_find_same(h0, h1, callee, key);
    h0.lemma_find_in_chain(callee, key);
}

/// A lookup finds the same in a heap and in one that holds the same objects
/// and more.
pub proof fn lemma_find_same(h0: Heap, h1: Heap, object: JsObject, key: PropertyKeyView)
    requires
        h0.has_object(object),
        h1.objects@.len() >= h0.objects@.len(),
        forall|i: int|
            0 <= i < h0.objects@.len() ==> (#[trigger] h1.objects@[i]) == h0.objects@[i],
    ensures
        h1.find_in_chain(object, key) == h0.find_in_chain(object, key),
    decreases object.index,
{
    if h0.object(object).own_property(key) is None {
        if let Some(p) = h0.object(object).prototype {
            if p.index < object.index {
                lemma_find_same(h0, h1, p, key);
            }
        }
    }
}

/// Stack integrity. A call leaves the environment stack as it found it:
/// the same environments in the same order, with the same global
/// environment at the bottom. The operand stack, the frames, the realm and
/// the active function are put back as well.
///
/// `pre` is the context before the call, `entered` the context that the
/// call hands over with its request, `left` the context when the request was
/// served and `done` the context after the call was completed. For a call
/// that asks for the interpreter nothing is required of what the
/// interpreter did to the environment stack and the operand stack; the
/// frame of the call must be on top of the frames again. A function of the
/// host must leave the three as it found them. The heap only grows.
pub proof fn lemma_call_restores_context(
    pre: Context,
    entered: Context,
    callee: JsObject,
    this: JsValue,
    args: Seq<JsValue>,
    step: CallStep,
    left: Context,
    done: Context,
)
    requires
        pre.wf(),
        pre.heap.is_function(callee),
        Context::called(pre, entered, callee, this, args, step),
        left.heap.extends(pre.heap),
        match step {
            CallStep::Done(_) => done == entered,
            CallStep::Native { resume, .. } => {
                &&& left.vm.environments.stack@ == entered.vm.environments.stack@
                &&& left.vm.stack@ == entered.vm.stack@
                &&& left.vm.frames@ == entered.vm.frames@
                &&& Context::call_completed(left, done, resume)
            },
            CallStep::Run(resume) => {
                &&& left.vm.frames@ == entered.vm.frames@
                &&& Context::call_completed(left, done, resume)
            },
        },
    ensures
        done.vm.environments.stack@ == pre.vm.environments.stack@,
        done.vm.environments.stack@.len() == pre.vm.environments.stack@.len(),
        done.vm.environments.stack@[0] == pre.vm.environments.stack@[0],
        done.vm.stack@ == pre.vm.stack@,
        done.vm.frames@ == pre.vm.frames@,
        done.realm == pre.realm,
        done.vm.active_function == pre.vm.active_function,
{
    let f = pre.heap.function(callee);
    assert(left.heap.realm(pre.realm) == pre.heap.realm(pre.realm));
    match step {
        CallStep::Done(_) => {},
        CallStep::Native { resume, .. } => {
            assert(done.vm.environments.stack@ =~= pre.vm.environments.stack@);
        },
        CallStep::Run(resume) => {
            assert(done.vm.environments.stack@ =~= pre.vm.environments.stack@);
            assert(done.vm.frames@ =~= pre.vm.frames@);
        },
    }
}

} // verus!
