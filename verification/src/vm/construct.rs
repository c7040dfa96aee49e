//! Constructing with a function object.
//!
//! Like a call, a construction stops with a request where code has to run:
//! the initializers of a class's instance elements, the interpreter, or a
//! function of the host. [`JsObject::continue_construct`] goes on after the
//! initializers, [`JsObject::complete_construct`] after the other two.

use crate::context::Context;
use crate::environments::runtime::uninitialized_this_message;
use crate::environments::runtime::DeclarativeEnvironmentStack;
use crate::environments::runtime::Environment;
use crate::environments::runtime::EnvironmentSlots;
use crate::environments::runtime::FunctionSlots;
use crate::environments::runtime::ThisBindingStatus;
use crate::error::JsError;
use crate::error::JsNativeError;
use crate::error::JsNativeErrorKind;
use crate::error::JsResult;
use crate::function::class_elements;
use crate::function::class_elements_is_empty;
use crate::function::ConstructorKind;
use crate::function::FunctionKind;
use crate::function::NativeFunction;
use crate::heap::stack_wf;
use crate::heap::Heap;
use crate::object::PropertyKeyView;
use crate::realm::Realm;
use crate::value::JsObject;
use crate::value::JsValue;
use crate::vm::call::call_frame;
use crate::vm::call::copy_arguments;
use crate::vm::call::place_arguments;
use crate::vm::call::placed_arguments;
use crate::vm::call::prototype_key;
use crate::vm::call::prototype_property_key;
use crate::vm::call::stamp;
use crate::vm::call::stamped;
use crate::vm::prologue::count_of;
use crate::vm::prologue::fresh_environments;
use crate::vm::prologue::ContextCleanupGuard;
use crate::vm::CallFrame;
use vstd::prelude::*;
use vstd::string::*;

verus! {

/// What a construction keeps while its request is served.
#[derive(Debug)]
pub enum ConstructResume {
    /// A function of the host runs.
    Native { guard: ContextCleanupGuard, constructor: Option<ConstructorKind>, new_target: JsObject },
    /// The initializers of the instance elements run.
    Initialize {
        guard: ContextCleanupGuard,
        instance: JsObject,
        new_target: JsObject,
        args: Vec<JsValue>,
    },
    /// The interpreter runs: the guard, the environment stack of the
    /// caller, the object that a base constructor was given as `this`, and
    /// the index of the function environment on the callee's stack.
    Scripted {
        guard: ContextCleanupGuard,
        environments: DeclarativeEnvironmentStack,
        this: Option<JsObject>,
        function_index: usize,
    },
}

/// How a construction goes on.
#[derive(Debug)]
pub enum ConstructStep {
    /// The construction is over, with this result.
    Done(JsResult<JsObject>),
    /// The host has to run one of its functions with `new_target` as its
    /// `this` value, and then complete the construction.
    Native { function: NativeFunction, new_target: JsValue, args: Vec<JsValue>, resume: ConstructResume },
    /// The instance elements of the class `constructor` have to be
    /// installed on `this`; then the construction continues.
    InitializeInstanceElements { this: JsObject, constructor: JsObject, resume: ConstructResume },
    /// The interpreter has to run the frame on top of the frame stack, and
    /// then complete the construction.
    Run(ConstructResume),
}

/// The message of the error raised when a derived constructor returns a
/// value that is neither an object nor `undefined`.
pub open spec fn derived_return_message() -> Seq<char> {
    "derived constructor can only return an Object or undefined"@
}

impl ConstructResume {
    /// The guard that the construction keeps.
    pub open spec fn guard(self) -> ContextCleanupGuard {
        match self {
            ConstructResume::Native { guard, .. } => guard,
            ConstructResume::Initialize { guard, .. } => guard,
            ConstructResume::Scripted { guard, .. } => guard,
        }
    }
}

impl Heap {
    /// The realm of a constructor: that of the function, and the given one
    /// for an object that is no function.
    pub open spec fn function_realm(self, constructor: JsObject, current: Realm) -> Realm {
        if self.is_function(constructor) {
            self.function(constructor).realm
        } else {
            current
        }
    }

    /// `GetPrototypeFromConstructor`: the value of the constructor's
    /// `prototype` property if that is an object, else `%Object.prototype%`
    /// of the constructor's realm.
    pub open spec fn prototype_from_constructor(self, constructor: JsObject, current: Realm) -> JsObject {
        match self.spec_get(constructor, PropertyKeyView::String(prototype_key())) {
            JsValue::Object(o) => if self.has_object(o) {
                o
            } else {
                self.realm(self.function_realm(constructor, current)).intrinsics.object_prototype
            },
            _ => self.realm(self.function_realm(constructor, current)).intrinsics.object_prototype,
        }
    }

    /// Whether the object is a plain object without properties that has the
    /// given prototype.
    pub open spec fn is_new_instance(self, object: JsObject, prototype: JsObject) -> bool {
        &&& self.has_object(object)
        &&& self.object(object).prototype == Some(prototype)
        &&& self.object(object).properties@.len() == 0
        &&& self.object(object).data is Ordinary
    }

    /// Whether constructing with the ordinary function `callee` has to
    /// install instance elements first: the constructor is a base
    /// constructor with fields or private methods.
    pub open spec fn installs_elements(self, callee: JsObject) -> bool {
        self.function(callee).kind matches FunctionKind::Ordinary {
            constructor_kind,
            fields,
            private_methods,
            ..
        } && constructor_kind == ConstructorKind::Base && (class_elements(fields).len() > 0
            || class_elements(private_methods).len() > 0)
    }

    /// Whether the function `callee` can be entered for a construction with
    /// the given `this` object: see [`Heap::can_enter`] and
    /// [`Heap::arguments_slot`].
    pub open spec fn can_construct(
        self,
        callee: JsObject,
        this: Option<JsObject>,
        new_target: JsObject,
    ) -> bool {
        let f = self.function(callee);
        let code = self.code_block(f.kind.spec_code().unwrap());
        let class_object = f.kind.spec_class_object();
        let bound = match this {
            Some(object) => Some(JsValue::Object(object)),
            None => None,
        };
        &&& self.can_enter(code, class_object is Some)
        &&& code.arguments_binding matches Some(locator) ==> self.arguments_slot(
            self.prologue_shapes(
                f.kind.spec_environments(),
                code,
                class_object,
                callee,
                bound,
                Some(new_target),
                false,
            ),
            f.kind.spec_environments() + fresh_environments(
                self.environments@.len() as int,
                code.prologue_len(class_object is Some),
            ),
            locator,
        )
    }

    /// Whether `after` is this heap with the function `callee` entered for
    /// a construction: after `instances` objects were created, the function
    /// was entered (see [`Heap::function_entered`]) with the given `this`
    /// object, the given `new.target` and a `this` that is not lexical.
    pub open spec fn construct_entered(
        self,
        after: Heap,
        stack: Seq<Environment>,
        callee: JsObject,
        this: Option<JsObject>,
        new_target: JsObject,
        args: Seq<JsValue>,
        instances: int,
    ) -> bool {
        let f = self.function(callee);
        let code = self.code_block(f.kind.spec_code().unwrap());
        &&& self.grew_by(after, instances + count_of(code.arguments_binding is Some))
        &&& self.function_entered(
            after,
            f.kind.spec_environments(),
            stack,
            code,
            f.kind.spec_class_object(),
            callee,
            match this {
                Some(object) => Some(JsValue::Object(object)),
                None => None,
            },
            Some(new_target),
            false,
            args,
            self.objects@.len() + instances,
            f.realm,
        )
    }
}

impl Context {
    /// `GetPrototypeFromConstructor`.
    pub fn get_prototype_from_constructor(&self, constructor: &JsObject) -> (prototype: JsObject)
        requires
            self.heap.wf(),
            self.heap.has_realm(self.realm),
            self.heap.has_object(*constructor),
        ensures
            prototype == self.heap.prototype_from_constructor(*constructor, self.realm),
            self.heap.has_object(prototype),
    {
        let realm = if self.heap.contains_function(constructor) {
            self.heap.function_of(constructor).realm
        } else {
            self.realm
        };
        proof {
            if self.heap.is_function(*constructor) {
                assert(self.heap.function_wf(self.heap.function(*constructor)));
            }
            assert(self.heap.realm_wf(self.heap.realms@[realm.index as int]));
        }
        let fallback = self.heap.realm_of(&realm).intrinsics.object_prototype;
        match self.heap.get(constructor, &prototype_property_key()) {
            JsValue::Object(o) => if self.heap.contains_object(&o) {
                o
            } else {
                fallback
            },
            _ => fallback,
        }
    }

    /// Creates a plain object whose prototype is taken from a constructor.
    pub fn create_from_constructor(&mut self, constructor: &JsObject) -> (object: JsObject)
        requires
            old(self).heap.wf(),
            old(self).heap.has_realm(old(self).realm),
            old(self).heap.has_object(*constructor),
        ensures
            object.index == old(self).heap.objects@.len(),
            old(self).heap.grew_by(final(self).heap, 1),
            final(self).heap.environments == old(self).heap.environments,
            final(self).heap.is_new_instance(
                object,
                old(self).heap.prototype_from_constructor(*constructor, old(self).realm),
            ),
            final(self).heap.extends(old(self).heap),
            final(self).heap.wf(),
            final(self).vm == old(self).vm,
            final(self).realm == old(self).realm,
            final(self).interner == old(self).interner,
    {
        let prototype = self.get_prototype_from_constructor(constructor);
        self.heap.alloc_ordinary(Some(prototype))
    }
}

/// What can be constructed with in a heap can be constructed with in a heap
/// that differs in its objects only.
pub proof fn lemma_can_construct(
    h0: Heap,
    h1: Heap,
    callee: JsObject,
    this: Option<JsObject>,
    new_target: JsObject,
)
    requires
        h0.is_function(callee),
        h1.is_function(callee),
        h1.function(callee) == h0.function(callee),
        h0.can_construct(callee, this, new_target),
        h1.environments == h0.environments,
        h1.compile_environments == h0.compile_environments,
        h1.code_blocks == h0.code_blocks,
    ensures
        h1.can_construct(callee, this, new_target),
{
    let f = h0.function(callee);
    let code = h0.code_block(f.kind.spec_code().unwrap());
    let bound = match this {
        Some(object) => Some(JsValue::Object(object)),
        None => None,
    };
    assert(h1.prologue_shapes(
        f.kind.spec_environments(),
        code,
        f.kind.spec_class_object(),
        callee,
        bound,
        Some(new_target),
        false,
    ) == h0.prologue_shapes(
        f.kind.spec_environments(),
        code,
        f.kind.spec_class_object(),
        callee,
        bound,
        Some(new_target),
        false,
    ));
}

/// A construction that is entered after an object was created is entered
/// with one instance more.
pub proof fn lemma_construct_entered(
    h0: Heap,
    h1: Heap,
    h2: Heap,
    stack: Seq<Environment>,
    callee: JsObject,
    this: Option<JsObject>,
    new_target: JsObject,
    args: Seq<JsValue>,
)
    requires
        h0.is_function(callee),
        h1.is_function(callee),
        h1.function(callee) == h0.function(callee),
        h0.grew_by(h1, 1),
        h1.environments == h0.environments,
        h1.construct_entered(h2, stack, callee, this, new_target, args, 0),
    ensures
        h0.construct_entered(h2, stack, callee, this, new_target, args, 1),
{
    reveal(Heap::function_entered);
    h0.lemma_bounded();
    h1.lemma_bounded();
    h2.lemma_bounded();
    let f = h0.function(callee);
    let code = h0.code_block(f.kind.spec_code().unwrap());
    let bound = match this {
        Some(object) => Some(JsValue::Object(object)),
        None => None,
    };
    let shapes1 = h1.prologue_shapes(
        f.kind.spec_environments(),
        code,
        f.kind.spec_class_object(),
        callee,
        bound,
        Some(new_target),
        false,
    );
    let shapes0 = h0.prologue_shapes(
        f.kind.spec_environments(),
        code,
        f.kind.spec_class_object(),
        callee,
        bound,
        Some(new_target),
        false,
    );
    assert(shapes1 == shapes0);
    let arguments = JsObject { index: h1.objects@.len() as usize };
    assert forall|i: int| 0 <= i < h2.environments@.len() implies (#[trigger] h2.environments@[i])@
        == h0.entered_environment(shapes0, stack, code.arguments_binding, arguments, i) by {
        assert(h2.environments@[i]@ == h1.entered_environment(
            shapes1,
            stack,
            code.arguments_binding,
            arguments,
            i,
        ));
    }
}

impl Context {
    /// What constructing with `callee` does to the context `pre`, by the
    /// kind of the function. In each case the realm of the callee is
    /// entered.
    /// - A function of the host: the host is asked to run it, with the new
    ///   target as its `this` value.
    /// - A base constructor: an object is created for `this`, with the
    ///   prototype that the new target provides. If the class has fields or
    ///   private methods, the caller is asked to install them; the
    ///   construction continues after that.
    /// - A derived constructor has no `this` to begin with.
    /// - Then the function is entered (see [`Heap::construct_entered`]), the
    ///   arguments are pushed on the operand stack, the frame is pushed, and
    ///   the interpreter is asked to run it. The request keeps the
    ///   environment stack of the caller.
    pub open spec fn constructed(
        pre: Context,
        post: Context,
        callee: JsObject,
        args: Seq<JsValue>,
        new_target: JsObject,
        step: ConstructStep,
    ) -> bool {
        let f = pre.heap.function(callee);
        let guard = ContextCleanupGuard {
            old_realm: pre.realm,
            old_active_function: pre.vm.active_function,
        };
        let entered_stack = pre.vm.environments.stack@.update(
            0,
            Environment::Declarative(pre.heap.realm(f.realm).environment),
        );
        &&& post.interner == pre.interner
        &&& post.realm == f.realm
        &&& post.vm.active_function == Some(callee)
        &&& match f.kind {
            FunctionKind::Native { function, constructor } => {
                &&& step matches ConstructStep::Native {
                    function: asked,
                    new_target: target,
                    args: passed,
                    resume,
                } && asked == function && target == JsValue::Object(new_target) && passed@ == args
                    && resume == (ConstructResume::Native { guard, constructor, new_target })
                &&& post.heap == pre.heap
                &&& post.vm.environments.stack@ == entered_stack
                &&& post.vm.stack@ == pre.vm.stack@
                &&& post.vm.frames@ == pre.vm.frames@
            },
            FunctionKind::Ordinary { code: code_block, constructor_kind, .. } => {
                let code = pre.heap.code_block(code_block);
                let base = constructor_kind == ConstructorKind::Base;
                let instance = JsObject { index: pre.heap.objects@.len() as usize };
                let this = if base {
                    Some(instance)
                } else {
                    None
                };
                &&& base ==> post.heap.is_new_instance(
                    instance,
                    pre.heap.prototype_from_constructor(new_target, f.realm),
                )
                &&& if pre.heap.installs_elements(callee) {
                    &&& step matches ConstructStep::InitializeInstanceElements {
                        this: installed,
                        constructor,
                        resume: ConstructResume::Initialize {
                            guard: kept,
                            instance: kept_this,
                            new_target: kept_target,
                            args: kept_args,
                        },
                    } && installed == instance && constructor == callee && kept == guard
                        && kept_this == instance && kept_target == new_target && kept_args@ == args
                    &&& pre.heap.grew_by(post.heap, 1)
                    &&& post.heap.environments == pre.heap.environments
                    &&& post.vm.environments.stack@ == entered_stack
                    &&& post.vm.stack@ == pre.vm.stack@
                    &&& post.vm.frames@ == pre.vm.frames@
                } else {
                    &&& step matches ConstructStep::Run(
                        ConstructResume::Scripted {
                            guard: kept,
                            environments,
                            this: kept_this,
                            function_index,
                        },
                    ) && kept == guard && environments.stack@ == entered_stack && kept_this == this
                        && function_index == f.kind.spec_environments().len()
                        + code.function_position(f.kind.spec_class_object() is Some)
                    &&& pre.heap.construct_entered(
                        post.heap,
                        post.vm.environments.stack@,
                        callee,
                        this,
                        new_target,
                        args,
                        count_of(base),
                    )
                    &&& post.vm.stack@ == pre.vm.stack@ + placed_arguments(
                        args,
                        code.params.parameters@.len() as int,
                    )
                    &&& post.vm.frames@ == pre.vm.frames@.push(
                        call_frame(code_block, code, args.len() as int, None),
                    )
                }
            },
            _ => false,
        }
    }
}

impl JsObject {
    /// Enters an ordinary function for a construction, once `this` is
    /// settled: enters the function, pushes the arguments on the operand
    /// stack and pushes the frame.
    fn enter_construct(
        &self,
        this: Option<JsObject>,
        new_target: JsObject,
        args: &[JsValue],
        guard: ContextCleanupGuard,
        context: &mut Context,
    ) -> (resume: ConstructResume)
        requires
            old(context).heap.wf(),
            old(context).heap.is_function(*self),
            old(context).heap.function(*self).kind is Ordinary,
            old(context).realm == old(context).heap.function(*self).realm,
            old(context).heap.can_construct(*self, this, new_target),
            args@.len() <= i32::MAX,
        ensures
            resume matches ConstructResume::Scripted {
                guard: kept,
                environments,
                this: kept_this,
                function_index,
            } && kept == guard && environments.stack@ == old(context).vm.environments.stack@
                && kept_this == this && function_index == old(context).heap.function(
                *self,
            ).kind.spec_environments().len() + old(context).heap.code_block(
                old(context).heap.function(*self).kind.spec_code().unwrap(),
            ).function_position(old(context).heap.function(*self).kind.spec_class_object() is Some),
            old(context).heap.construct_entered(
                final(context).heap,
                final(context).vm.environments.stack@,
                *self,
                this,
                new_target,
                args@,
                0,
            ),
            final(context).vm.stack@ == old(context).vm.stack@ + placed_arguments(
                args@,
                old(context).heap.code_block(
                    old(context).heap.function(*self).kind.spec_code().unwrap(),
                ).params.parameters@.len() as int,
            ),
            final(context).vm.frames@ == old(context).vm.frames@.push(
                call_frame(
                    old(context).heap.function(*self).kind.spec_code().unwrap(),
                    old(context).heap.code_block(
                        old(context).heap.function(*self).kind.spec_code().unwrap(),
                    ),
                    args@.len() as int,
                    None,
                ),
            ),
            final(context).vm.active_function == old(context).vm.active_function,
            final(context).realm == old(context).realm,
            final(context).interner == old(context).interner,
            final(context).heap.extends(old(context).heap),
            final(context).heap.wf(),
            stack_wf(final(context).vm.environments.stack@, final(context).heap),
    {
        let ghost h0 = context.heap;
        proof {
            h0.lemma_bounded();
            assert(h0.function_wf(h0.function(*self)));
        }
        let (code, environments, class_object, _, _) = context.heap.function_of(
            self,
        ).scripted_parts();
        let has_binding_identifier = context.heap.code_block_of(&code).has_binding_identifier;
        let captured_len = environments.len();
        let bound = match this {
            Some(object) => Some(JsValue::Object(object)),
            None => None,
        };
        let saved = context.enter_function(
            code,
            environments,
            class_object,
            *self,
            bound,
            Some(new_target),
            false,
            args,
        );
        let param_count = context.heap.code_block_of(&code).params.len();
        let mut placed = place_arguments(args, param_count);
        context.vm.stack.append(&mut placed);
        context.vm.push_frame(
            CallFrame::new(code).with_param_count(param_count).with_arg_count(args.len()),
        );
        proof {
            context.heap.lemma_stack_wf_extends(h0, h0.function(*self).kind.spec_environments());
            let cb = h0.code_block(code);
            assert(captured_len + cb.function_position(class_object is Some)
                < context.vm.environments.stack@.len()) by {
                reveal(Heap::function_entered);
            }
            assert(context.vm.environments.stack.len() <= usize::MAX);
        }
        let mut function_index = captured_len;
        if class_object.is_some() {
            function_index += 1;
        }
        if has_binding_identifier {
            function_index += 1;
        }
        ConstructResume::Scripted { guard, environments: saved, this, function_index }
    }

    /// Constructs with this function object, which must be a function of the
    /// host or an ordinary function, and with a new target that is an
    /// object. See [`Context::constructed`] for what each kind of function
    /// does.
    pub fn construct_internal(&self, args: &[JsValue], this_target: &JsValue, context: &mut Context) -> (step:
        ConstructStep)
        requires
            old(context).wf(),
            old(context).heap.is_function(*self),
            old(context).heap.function(*self).kind is Native || old(context).heap.function(
                *self,
            ).kind is Ordinary,
            *this_target matches JsValue::Object(target) && old(context).heap.has_object(target),
            args@.len() <= i32::MAX,
            old(context).heap.function(*self).kind matches FunctionKind::Ordinary {
                constructor_kind,
                ..
            } ==> old(context).heap.installs_elements(*self) || old(context).heap.can_construct(
                *self,
                if constructor_kind == ConstructorKind::Base {
                    Some(JsObject { index: old(context).heap.objects@.len() as usize })
                } else {
                    None
                },
                this_target->Object_0,
            ),
        ensures
            Context::constructed(
                *old(context),
                *final(context),
                *self,
                args@,
                this_target->Object_0,
                step,
            ),
            final(context).heap.extends(old(context).heap),
            final(context).heap.wf(),
            final(context).heap.has_realm(final(context).realm),
            stack_wf(final(context).vm.environments.stack@, final(context).heap),
    {
        let ghost pre = *context;
        proof {
            pre.heap.lemma_bounded();
            assert(pre.heap.function_wf(pre.heap.function(*self)));
        }
        let new_target = match this_target {
            JsValue::Object(target) => *target,
            _ => vstd::pervasive::unreached(),
        };
        let realm = context.heap.function_of(self).realm;
        let guard = ContextCleanupGuard::new(context, realm, *self);
        let function = context.heap.function_of(self);
        match &function.kind {
            FunctionKind::Native { function, constructor } => {
                let function = *function;
                let constructor = *constructor;
                ConstructStep::Native {
                    function,
                    new_target: *this_target,
                    args: copy_arguments(args),
                    resume: ConstructResume::Native { guard, constructor, new_target },
                }
            },
            FunctionKind::Ordinary { constructor_kind, fields, private_methods, .. } => {
                let base = constructor_kind.is_base();
                let installs = base && (!class_elements_is_empty(fields) || !class_elements_is_empty(
                    private_methods,
                ));
                let this = if base {
                    Some(context.create_from_constructor(&new_target))
                } else {
                    None
                };
                let ghost h1 = context.heap;
                proof {
                    h1.lemma_stack_wf_extends(pre.heap, context.vm.environments.stack@);
                }
                match this {
                    Some(instance) if installs => ConstructStep::InitializeInstanceElements {
                        this: instance,
                        constructor: *self,
                        resume: ConstructResume::Initialize {
                            guard,
                            instance,
                            new_target,
                            args: copy_arguments(args),
                        },
                    },
                    _ => {
                        proof {
                            assert(h1.objects@[self.index as int] == pre.heap.objects@[self.index as int]);
                            lemma_can_construct(pre.heap, h1, *self, this, new_target);
                        }
                        let resume = self.enter_construct(this, new_target, args, guard, context);
                        proof {
                            context.heap.lemma_extends_transitive(h1, pre.heap);
                            if base {
                                lemma_construct_entered(
                                    pre.heap,
                                    h1,
                                    context.heap,
                                    context.vm.environments.stack@,
                                    *self,
                                    this,
                                    new_target,
                                    args@,
                                );
                                assert(context.heap.objects@[pre.heap.objects@.len() as int]
                                    == h1.objects@[pre.heap.objects@.len() as int]);
                            }
                        }
                        ConstructStep::Run(resume)
                    },
                }
            },
            _ => vstd::pervasive::unreached(),
        }
    }
}

/// Whether `result` is what a scripted construction returns for the
/// outcome of its code, where `this` is the object that a base constructor
/// was given and `slots` are the slots of the function environment:
/// - an error is passed on;
/// - an object that the code returned is the result;
/// - else the `this` object of a base constructor is;
/// - else, for a derived constructor, a value other than `undefined` is a
///   `TypeError`, and for `undefined` the result is the `this` binding of the
///   function environment, or a `ReferenceError` where `this` is not bound.
pub open spec fn scripted_construct_result(
    result: JsResult<JsObject>,
    this: Option<JsObject>,
    outcome: JsResult<JsValue>,
    slots: FunctionSlots,
) -> bool {
    match outcome {
        Err(err) => result is Err && result->Err_0 == err,
        Ok(JsValue::Object(object)) => result == Ok::<JsObject, JsError>(object),
        Ok(value) => match this {
            Some(object) => result == Ok::<JsObject, JsError>(object),
            None => if value != JsValue::Undefined {
                result matches Err(JsError::Native(err)) && err.is(
                    JsNativeErrorKind::Type,
                    derived_return_message(),
                ) && err.realm is None
            } else if slots.this_binding_status == ThisBindingStatus::Uninitialized {
                result matches Err(JsError::Native(err)) && err.is(
                    JsNativeErrorKind::Reference,
                    uninitialized_this_message(),
                ) && err.realm is None
            } else {
                slots.this matches JsValue::Object(object) && result == Ok::<JsObject, JsError>(
                    object,
                )
            },
        },
    }
}

/// Whether `result` is what a construction by a function of the host
/// returns for the outcome of the function, where `instance` is the object
/// that is created if the function returned none:
/// - an error is passed on;
/// - an object that the function returned is the result;
/// - else the new object is, for a base constructor or for `undefined`;
/// - else the result is a `TypeError`.
pub open spec fn native_construct_result(
    result: JsResult<JsObject>,
    constructor: Option<ConstructorKind>,
    outcome: JsResult<JsValue>,
    instance: JsObject,
) -> bool {
    match outcome {
        Err(err) => result is Err && result->Err_0 == err,
        Ok(JsValue::Object(object)) => result == Ok::<JsObject, JsError>(object),
        Ok(value) => if constructor == Some(ConstructorKind::Base) || value == JsValue::Undefined {
            result == Ok::<JsObject, JsError>(instance)
        } else {
            result matches Err(JsError::Native(err)) && err.is(
                JsNativeErrorKind::Type,
                derived_return_message(),
            ) && err.realm is None
        },
    }
}

/// Whether a construction by a function of the host creates an object for
/// the outcome: the function returned no object, and the constructor is a
/// base constructor or the function returned `undefined`.
pub open spec fn native_creates(constructor: Option<ConstructorKind>, outcome: JsResult<JsValue>) -> bool {
    outcome is Ok && !(outcome->Ok_0 is Object) && (constructor == Some(ConstructorKind::Base)
        || outcome->Ok_0 == JsValue::Undefined)
}

impl Context {
    /// Whether the function environment of a scripted construction can be
    /// read in this context: it is on the stack at the index that the
    /// construction keeps, and its `this` binding is not lexical and holds
    /// an object once bound.
    pub open spec fn function_environment_readable(self, function_index: usize) -> bool {
        &&& function_index < self.vm.environments.stack@.len()
        &&& self.vm.environments.stack@[function_index as int] is Declarative
        &&& self.heap.has_environment(
            self.vm.environments.stack@[function_index as int]->Declarative_0,
        )
        &&& self.heap.is_function_environment(self.vm.environments.stack@[function_index as int])
        &&& self.function_environment_slots(function_index).this_binding_status
            != ThisBindingStatus::Lexical
        &&& self.function_environment_slots(function_index).this_binding_status
            == ThisBindingStatus::Initialized ==> self.function_environment_slots(
            function_index,
        ).this is Object
    }

    /// The slots of the function environment of a scripted construction.
    pub open spec fn function_environment_slots(self, function_index: usize) -> FunctionSlots {
        self.heap.environment(
            self.vm.environments.stack@[function_index as int]->Declarative_0,
        ).slots.unwrap()->Function_0
    }

    /// What completing a construction does, and what it returns: the realm
    /// and the active function of the caller are put back; after the
    /// interpreter, the frame is popped and the environment stack of the
    /// caller is put back. See [`scripted_construct_result`] and
    /// [`native_construct_result`] for the result.
    pub open spec fn construct_completed(
        pre: Context,
        post: Context,
        resume: ConstructResume,
        outcome: JsResult<JsValue>,
        result: JsResult<JsObject>,
    ) -> bool {
        let guard = resume.guard();
        &&& post.interner == pre.interner
        &&& post.realm == guard.old_realm
        &&& post.vm.active_function == guard.old_active_function
        &&& post.vm.stack@ == pre.vm.stack@
        &&& match resume {
            ConstructResume::Native { constructor, new_target, .. } => {
                let instance = JsObject { index: pre.heap.objects@.len() as usize };
                &&& native_construct_result(
                    result,
                    constructor,
                    stamped(outcome, pre.realm),
                    instance,
                )
                &&& if native_creates(constructor, outcome) {
                    &&& pre.heap.grew_by(post.heap, 1)
                    &&& post.heap.environments == pre.heap.environments
                    &&& post.heap.is_new_instance(
                        instance,
                        pre.heap.prototype_from_constructor(new_target, pre.realm),
                    )
                } else {
                    post.heap == pre.heap
                }
                &&& post.vm.environments.stack@ == pre.vm.environments.stack@.update(
                    0,
                    Environment::Declarative(pre.heap.realm(guard.old_realm).environment),
                )
                &&& post.vm.frames@ == pre.vm.frames@
            },
            ConstructResume::Scripted { environments, this, function_index, .. } => {
                &&& scripted_construct_result(
                    result,
                    this,
                    stamped(outcome, pre.realm),
                    pre.function_environment_slots(function_index),
                )
                &&& post.heap == pre.heap
                &&& post.vm.environments.stack@ == environments.stack@.update(
                    0,
                    Environment::Declarative(pre.heap.realm(guard.old_realm).environment),
                )
                &&& post.vm.frames@ == (if pre.vm.frames@.len() > 0 {
                    pre.vm.frames@.drop_last()
                } else {
                    pre.vm.frames@
                })
            },
            ConstructResume::Initialize { .. } => false,
        }
    }
}

impl JsObject {
    /// Continues a construction after the instance elements were installed.
    /// If installing them failed, the construction is over with that error
    /// and the realm and the active function of the caller are put back.
    /// Otherwise the function is entered as [`Context::constructed`]
    /// describes, with the object that was created before as `this`.
    pub fn continue_construct(
        &self,
        resume: ConstructResume,
        outcome: JsResult<()>,
        context: &mut Context,
    ) -> (step: ConstructStep)
        requires
            resume is Initialize,
            old(context).heap.wf(),
            old(context).heap.has_realm(resume.guard().old_realm),
            old(context).vm.environments.stack@.len() >= 1,
            outcome is Ok ==> {
                &&& old(context).heap.is_function(*self)
                &&& old(context).heap.function(*self).kind is Ordinary
                &&& old(context).realm == old(context).heap.function(*self).realm
                &&& resume->Initialize_args@.len() <= i32::MAX
                &&& old(context).heap.can_construct(
                    *self,
                    Some(resume->Initialize_instance),
                    resume->Initialize_new_target,
                )
            },
        ensures
            final(context).heap.extends(old(context).heap),
            final(context).heap.wf(),
            final(context).interner == old(context).interner,
            match outcome {
                Err(err) => {
                    &&& step matches ConstructStep::Done(Err(passed)) && passed == err
                    &&& final(context).heap == old(context).heap
                    &&& final(context).realm == resume.guard().old_realm
                    &&& final(context).vm.active_function == resume.guard().old_active_function
                    &&& final(context).vm.environments.stack@ == old(
                        context,
                    ).vm.environments.stack@.update(
                        0,
                        Environment::Declarative(
                            old(context).heap.realm(resume.guard().old_realm).environment,
                        ),
                    )
                    &&& final(context).vm.stack@ == old(context).vm.stack@
                    &&& final(context).vm.frames@ == old(context).vm.frames@
                },
                Ok(_) => {
                    let f = old(context).heap.function(*self);
                    let code_block = f.kind.spec_code().unwrap();
                    let code = old(context).heap.code_block(code_block);
                    &&& step matches ConstructStep::Run(
                        ConstructResume::Scripted {
                            guard: kept,
                            environments,
                            this: kept_this,
                            function_index,
                        },
                    ) && kept == resume.guard() && environments.stack@ == old(
                        context,
                    ).vm.environments.stack@ && kept_this == Some(resume->Initialize_instance)
                        && function_index == f.kind.spec_environments().len()
                        + code.function_position(f.kind.spec_class_object() is Some)
                    &&& old(context).heap.construct_entered(
                        final(context).heap,
                        final(context).vm.environments.stack@,
                        *self,
                        Some(resume->Initialize_instance),
                        resume->Initialize_new_target,
                        resume->Initialize_args@,
                        0,
                    )
                    &&& final(context).vm.stack@ == old(context).vm.stack@ + placed_arguments(
                        resume->Initialize_args@,
                        code.params.parameters@.len() as int,
                    )
                    &&& final(context).vm.frames@ == old(context).vm.frames@.push(
                        call_frame(code_block, code, resume->Initialize_args@.len() as int, None),
                    )
                    &&& final(context).realm == old(context).realm
                    &&& final(context).vm.active_function == old(context).vm.active_function
                    &&& stack_wf(final(context).vm.environments.stack@, final(context).heap)
                },
            },
    {
        match resume {
            ConstructResume::Initialize { guard, instance, new_target, args } => {
                match outcome {
                    Err(err) => {
                        guard.release(context);
                        ConstructStep::Done(Err(err))
                    },
                    Ok(_) => {
                        let resume = self.enter_construct(
                            Some(instance),
                            new_target,
                            args.as_slice(),
                            guard,
                            context,
                        );
                        ConstructStep::Run(resume)
                    },
                }
            },
            _ => vstd::pervasive::unreached(),
        }
    }

    /// Completes a construction whose request was served with the given
    /// outcome: puts the context of the caller back and returns the result
    /// of the construction, as [`Context::construct_completed`] describes.
    /// Where the result is the `this` binding of a derived constructor, the
    /// function environment must be in its place on the stack.
    pub fn complete_construct(
        resume: ConstructResume,
        outcome: JsResult<JsValue>,
        context: &mut Context,
    ) -> (result: JsResult<JsObject>)
        requires
            old(context).heap.wf(),
            old(context).heap.has_realm(old(context).realm),
            old(context).heap.has_realm(resume.guard().old_realm),
            match resume {
                ConstructResume::Native { constructor, new_target, .. } => {
                    &&& old(context).vm.environments.stack@.len() >= 1
                    &&& old(context).heap.has_object(new_target)
                    &&& (outcome is Ok && !(outcome->Ok_0 is Object)) ==> constructor is Some
                },
                ConstructResume::Scripted { environments, this, function_index, .. } => {
                    &&& environments.stack@.len() >= 1
                    &&& (this is None && outcome == Ok::<JsValue, JsError>(JsValue::Undefined))
                        ==> old(context).function_environment_readable(function_index)
                },
                ConstructResume::Initialize { .. } => false,
            },
        ensures
            Context::construct_completed(*old(context), *final(context), resume, outcome, result),
            final(context).heap.extends(old(context).heap),
            final(context).heap.wf(),
    {
        proof {
            context.heap.lemma_bounded();
        }
        let outcome = stamp(outcome, context.realm);
        match resume {
            ConstructResume::Native { guard, constructor, new_target } => {
                let result = match outcome {
                    Err(err) => Err(err),
                    Ok(JsValue::Object(object)) => Ok(object),
                    Ok(value) => {
                        let base = match constructor {
                            Some(kind) => kind.is_base(),
                            None => false,
                        };
                        if base || value.is_undefined() {
                            Ok(context.create_from_constructor(&new_target))
                        } else {
                            Err(
                                JsError::Native(
                                    JsNativeError::typ().with_message(
                                        String::from_str(
                                            "derived constructor can only return an Object or undefined",
                                        ),
                                    ),
                                ),
                            )
                        }
                    },
                };
                guard.release(context);
                result
            },
            ConstructResume::Scripted { guard, environments, this, function_index } => {
                context.vm.pop_frame();
                let mut environments = environments;
                std::mem::swap(&mut environments, &mut context.vm.environments);
                let result = match outcome {
                    Err(err) => Err(err),
                    Ok(JsValue::Object(object)) => Ok(object),
                    Ok(value) => match this {
                        Some(object) => Ok(object),
                        None => {
                            if !value.is_undefined() {
                                Err(
                                    JsError::Native(
                                        JsNativeError::typ().with_message(
                                            String::from_str(
                                                "derived constructor can only return an Object or undefined",
                                            ),
                                        ),
                                    ),
                                )
                            } else {
                                let env = environments.stack[function_index].declarative_expect();
                                let slots = match &context.heap.environment_of(&env).slots {
                                    Some(EnvironmentSlots::Function(slots)) => slots,
                                    _ => vstd::pervasive::unreached(),
                                };
                                match slots.get_this_binding() {
                                    Ok(JsValue::Object(object)) => Ok(*object),
                                    Ok(_) => vstd::pervasive::unreached(),
                                    Err(err) => Err(JsError::Native(err)),
                                }
                            }
                        },
                    },
                };
                guard.release(context);
                result
            },
            ConstructResume::Initialize { .. } => vstd::pervasive::unreached(),
        }
    }
}

/// Stack integrity of a construction. A construction leaves the
/// environment stack as it found it, with the same global environment at the
/// bottom, and puts back the realm and the active function.
///
/// `pre` is the context before the construction and `entered` the context
/// that it handed over with its last request, `last`, which asks for the
/// interpreter or for a function of the host; `left` is the context when
/// that request was served and `done` the context after the construction
/// was completed. A function of the host
/// must leave the environment stack as it found it; nothing is required of
/// the interpreter. The heap only grows.
pub proof fn lemma_construct_restores_context(
    pre: Context,
    entered: Context,
    last: ConstructResume,
    outcome: JsResult<JsValue>,
    result: JsResult<JsObject>,
    left: Context,
    done: Context,
)
    requires
        pre.wf(),
        left.heap.extends(pre.heap),
        last.guard() == (ContextCleanupGuard {
            old_realm: pre.realm,
            old_active_function: pre.vm.active_function,
        }),
        match last {
            ConstructResume::Native { .. } => entered.vm.environments.stack@
                == pre.vm.environments.stack@.update(0, entered.vm.environments.stack@[0])
                && left.vm.environments.stack@ == entered.vm.environments.stack@,
            ConstructResume::Scripted { environments, .. } => environments.stack@
                == pre.vm.environments.stack@.update(0, environments.stack@[0]),
            ConstructResume::Initialize { .. } => false,
        },
        Context::construct_completed(left, done, last, outcome, result),
    ensures
        done.vm.environments.stack@ == pre.vm.environments.stack@,
        done.vm.environments.stack@[0] == pre.vm.environments.stack@[0],
        done.realm == pre.realm,
        done.vm.active_function == pre.vm.active_function,
{
    assert(left.heap.realm(pre.realm) == pre.heap.realm(pre.realm));
    assert(done.vm.environments.stack@ =~= pre.vm.environments.stack@);
}

} // verus!
