//! Entering a function: the realm swap and the environments that a call or
//! a construction pushes before the function's code runs.

use crate::context::Context;
use crate::environments::compile::var_indices;
use crate::environments::compile::CompileTimeEnvironmentRef;
use crate::environments::runtime::DeclarativeEnvironmentRef;
use crate::environments::runtime::Environment;
use crate::environments::runtime::EnvironmentSlots;
use crate::environments::runtime::EnvironmentView;
use crate::environments::runtime::FunctionSlots;
use crate::environments::runtime::ThisBindingStatus;
use crate::environments::stack::initial_bindings;
use crate::heap::stack_wf;
use crate::heap::Heap;
use crate::realm::Realm;
use crate::value::JsObject;
use crate::value::JsValue;
use crate::vm::code_block::CodeBlock;
use crate::vm::code_block::CodeBlockRef;
use vstd::prelude::*;

verus! {

/// What a call saves of the context on entry, to put it back on exit: the
/// realm and the active function of the caller.
#[derive(Clone, Copy, Debug, PartialEq, Eq, Structural)]
pub struct ContextCleanupGuard {
    pub old_realm: Realm,
    pub old_active_function: Option<JsObject>,
}

impl ContextCleanupGuard {
    /// Enters the realm of a function that is about to run and makes that
    /// function the active one. The guard keeps what was current.
    pub fn new(context: &mut Context, realm: Realm, active_function: JsObject) -> (guard: Self)
        requires
            old(context).wf(),
            old(context).heap.has_realm(realm),
        ensures
            guard.old_realm == old(context).realm,
            guard.old_active_function == old(context).vm.active_function,
            final(context).realm == realm,
            final(context).vm.active_function == Some(active_function),
            final(context).vm.environments.stack@ == old(context).vm.environments.stack@.update(
                0,
                Environment::Declarative(old(context).heap.realm(realm).environment),
            ),
            final(context).heap == old(context).heap,
            final(context).interner == old(context).interner,
            final(context).vm.stack == old(context).vm.stack,
            final(context).vm.frames == old(context).vm.frames,
            final(context).wf(),
    {
        let old_realm = context.enter_realm(realm);
        let old_active_function = context.vm.active_function;
        context.vm.active_function = Some(active_function);
        ContextCleanupGuard { old_realm, old_active_function }
    }

    /// Puts back the realm and the active function that the guard keeps.
    pub fn release(self, context: &mut Context)
        requires
            old(context).heap.wf(),
            old(context).heap.has_realm(self.old_realm),
            old(context).vm.environments.stack@.len() >= 1,
        ensures
            final(context).realm == self.old_realm,
            final(context).vm.active_function == self.old_active_function,
            final(context).vm.environments.stack@ == old(context).vm.environments.stack@.update(
                0,
                Environment::Declarative(old(context).heap.realm(self.old_realm).environment),
            ),
            final(context).heap == old(context).heap,
            final(context).interner == old(context).interner,
            final(context).vm.stack == old(context).vm.stack,
            final(context).vm.frames == old(context).vm.frames,
    {
        context.enter_realm(self.old_realm);
        context.vm.active_function = self.old_active_function;
    }
}

/// 1 for `true`, 0 for `false`.
pub open spec fn count_of(b: bool) -> int {
    if b {
        1
    } else {
        0
    }
}

/// The status of the `this` binding of a new function environment.
pub open spec fn this_status(this: Option<JsValue>, lexical: bool) -> ThisBindingStatus {
    if lexical {
        ThisBindingStatus::Lexical
    } else if this is Some {
        ThisBindingStatus::Initialized
    } else {
        ThisBindingStatus::Uninitialized
    }
}

impl CodeBlock {
    /// The number of environments that entering this function pushes: one
    /// for the class of a method, one for the binding identifier of a
    /// function expression, the function environment, and one for the
    /// parameters where they have expressions.
    pub open spec fn prologue_len(self, class: bool) -> int {
        count_of(class) + count_of(self.has_binding_identifier) + 1 + count_of(
            self.parameters_env_bindings is Some,
        )
    }

    /// The compile-time environment of the `k`-th environment that
    /// entering this function pushes. The list holds the innermost scope
    /// first, so the environments are pushed from its end.
    pub open spec fn prologue_compile(self, k: int) -> CompileTimeEnvironmentRef {
        self.compile_environments@[self.compile_environments@.len() - 1 - k]
    }

    /// The position, among the environments pushed on entry, of the function
    /// environment.
    pub open spec fn function_position(self, class: bool) -> int {
        count_of(class) + count_of(self.has_binding_identifier)
    }
}

impl Heap {
    /// Whether a function with this code block can be entered: the code
    /// block names a compile-time environment for each environment that
    /// entering pushes, and the function environment has room for every
    /// binding that its compile-time environment declares by `var`.
    pub open spec fn can_enter(self, code: CodeBlock, class: bool) -> bool {
        &&& code.compile_environments@.len() >= code.prologue_len(class)
        &&& forall|i: int|
            0 <= i < self.compile_environment(
                code.prologue_compile(code.function_position(class)),
            ).bindings@.len() && self.compile_environment(
                code.prologue_compile(code.function_position(class)),
            ).bindings@[i].var ==> i < code.num_bindings
    }

    /// The environments that entering a function pushes on `stack`, in
    /// order. All inherit the poison flag and the `with` flag of the stack.
    pub open spec fn prologue_shapes(
        self,
        stack: Seq<Environment>,
        code: CodeBlock,
        class_object: Option<JsObject>,
        function: JsObject,
        this: Option<JsValue>,
        new_target: Option<JsObject>,
        lexical: bool,
    ) -> Seq<EnvironmentView> {
        let poisoned = self.inherited_poisoned(stack);
        let with = self.inherited_with(stack);
        let class = class_object is Some;
        let class_part = match class_object {
            Some(c) => seq![
                EnvironmentView {
                    bindings: seq![Some(JsValue::Object(c))],
                    compile: code.prologue_compile(0),
                    poisoned,
                    with,
                    slots: None,
                },
            ],
            None => Seq::empty(),
        };
        let identifier_part = if code.has_binding_identifier {
            seq![
                EnvironmentView {
                    bindings: seq![Some(JsValue::Object(function))],
                    compile: code.prologue_compile(count_of(class)),
                    poisoned,
                    with,
                    slots: None,
                },
            ]
        } else {
            Seq::empty()
        };
        let function_compile = code.prologue_compile(code.function_position(class));
        let function_part = seq![
            EnvironmentView {
                bindings: initial_bindings(
                    code.num_bindings as int,
                    var_indices(
                        self.compile_environment(function_compile).bindings@,
                        self.compile_environment(function_compile).bindings@.len() as int,
                    ),
                ),
                compile: function_compile,
                poisoned,
                with,
                slots: Some(
                    EnvironmentSlots::Function(
                        FunctionSlots {
                            this: match this {
                                Some(value) => value,
                                None => JsValue::Null,
                            },
                            this_binding_status: this_status(this, lexical),
                            function_object: function,
                            new_target,
                        },
                    ),
                ),
            },
        ];
        let parameters_part = match code.parameters_env_bindings {
            Some(count) => seq![
                EnvironmentView {
                    bindings: initial_bindings(count as int, Seq::empty()),
                    compile: code.prologue_compile(code.function_position(class) + 1),
                    poisoned,
                    with,
                    slots: None,
                },
            ],
            None => Seq::empty(),
        };
        class_part + identifier_part + function_part + parameters_part
    }

    /// Whether `after` is this heap with the environments of a function
    /// entry appended: the environments that `shapes` describes, and nothing
    /// else changed.
    pub open spec fn entered(self, after: Heap, shapes: Seq<EnvironmentView>) -> bool {
        &&& after.same_but_environments(self)
        &&& after.environments@.len() == self.environments@.len() + shapes.len()
        &&& forall|i: int|
            0 <= i < self.environments@.len() ==> (#[trigger] after.environments@[i])
                == self.environments@[i]
        &&& forall|k: int|
            0 <= k < shapes.len() ==> (#[trigger] after.environments@[self.environments@.len()
                + k])@ == shapes[k]
    }
}

/// The handles of `count` environments allocated one after the other from
/// index `base` on.
pub open spec fn fresh_environments(base: int, count: int) -> Seq<Environment> {
    Seq::new(
        count as nat,
        |k: int| Environment::Declarative(DeclarativeEnvironmentRef { index: (base + k) as usize }),
    )
}

/// A new declarative environment on a stack whose top is a declarative
/// environment inherits both flags from that environment.
pub proof fn lemma_inherits_from_top(heap: Heap, stack: Seq<Environment>)
    requires
        stack.len() >= 1,
        stack.last() is Declarative,
    ensures
        heap.nearest_declarative(stack, stack.len() as int) == stack.len() - 1,
        heap.inherited_poisoned(stack) == heap.environment(stack.last()->Declarative_0).poisoned,
        heap.inherited_with(stack) == heap.environment(stack.last()->Declarative_0).with,
{
    let p = |e: Environment| e is Declarative;
    assert(p(stack[stack.len() - 1]));
    crate::environments::stack::lemma_last_index_is(
        stack,
        stack.len() as int,
        p,
        stack.len() - 1,
    );
}

/// Whether the step from `(h0, s0)` to `(h1, s1)` pushed one new declarative
/// environment of the given shape, which inherits the flags of `s0`.
pub open spec fn pushed_one(
    h0: Heap,
    s0: Seq<Environment>,
    h1: Heap,
    s1: Seq<Environment>,
    shape: EnvironmentView,
) -> bool {
    &&& s1 == s0.push(
        Environment::Declarative(
            DeclarativeEnvironmentRef { index: h0.environments@.len() as usize },
        ),
    )
    &&& h0.entered(h1, seq![shape])
    &&& shape.poisoned == h0.inherited_poisoned(s0)
    &&& shape.with == h0.inherited_with(s0)
    &&& h1.extends(h0)
    &&& h1.wf()
    &&& stack_wf(s1, h1)
}

/// Whether `(h, s)` is `(h0, s0)` with the environments of the given shapes
/// pushed, all of which inherit the flags of `s0`.
pub open spec fn pushed_all(
    h0: Heap,
    s0: Seq<Environment>,
    h: Heap,
    s: Seq<Environment>,
    shapes: Seq<EnvironmentView>,
) -> bool {
    &&& s == s0 + fresh_environments(h0.environments@.len() as int, shapes.len() as int)
    &&& h0.entered(h, shapes)
    &&& h.extends(h0)
    &&& h.wf()
    &&& stack_wf(s, h)
    &&& h.inherited_poisoned(s) == h0.inherited_poisoned(s0)
    &&& h.inherited_with(s) == h0.inherited_with(s0)
}

/// Nothing pushed yet.
pub proof fn lemma_pushed_none(h0: Heap, s0: Seq<Environment>)
    requires
        h0.wf(),
        stack_wf(s0, h0),
    ensures
        pushed_all(h0, s0, h0, s0, Seq::empty()),
{
    assert(s0 =~= s0 + fresh_environments(h0.environments@.len() as int, 0));
}

/// One more environment pushed.
pub proof fn lemma_pushed_more(
    h0: Heap,
    s0: Seq<Environment>,
    h1: Heap,
    s1: Seq<Environment>,
    shapes: Seq<EnvironmentView>,
    h2: Heap,
    s2: Seq<Environment>,
    shape: EnvironmentView,
)
    requires
        pushed_all(h0, s0, h1, s1, shapes),
        pushed_one(h1, s1, h2, s2, shape),
    ensures
        pushed_all(h0, s0, h2, s2, shapes.push(shape)),
        shape.poisoned == h0.inherited_poisoned(s0),
        shape.with == h0.inherited_with(s0),
{
    h2.lemma_bounded();
    h2.lemma_extends_transitive(h1, h0);
    let base = h0.environments@.len() as int;
    let n = shapes.len() as int;
    assert(h1.environments@.len() == base + n);
    assert(s2 =~= s0 + fresh_environments(base, n + 1));
    lemma_inherits_from_top(h2, s2);
    assert(h2.environments@[base + n]@ == shape) by {
        assert(seq![shape][0] == shape);
        assert(h2.environments@[h1.environments@.len() + 0int]@ == seq![shape][0]);
    }
    assert forall|k: int| 0 <= k < shapes.push(shape).len() implies (
    #[trigger] h2.environments@[h0.environments@.len() + k])@ == shapes.push(shape)[k] by {
        if k < n {
            assert(h2.environments@[base + k] == h1.environments@[base + k]);
        }
    }
}

impl Context {
    /// Pushes a declarative environment with one binding that holds the
    /// given value.
    fn push_holder(&mut self, compile: CompileTimeEnvironmentRef, value: JsValue)
        requires
            old(self).heap.wf(),
            stack_wf(old(self).vm.environments.stack@, old(self).heap),
            old(self).heap.has_compile_environment(compile),
        ensures
            pushed_one(
                old(self).heap,
                old(self).vm.environments.stack@,
                final(self).heap,
                final(self).vm.environments.stack@,
                EnvironmentView {
                    bindings: seq![Some(value)],
                    compile,
                    poisoned: old(self).heap.inherited_poisoned(old(self).vm.environments.stack@),
                    with: old(self).heap.inherited_with(old(self).vm.environments.stack@),
                    slots: None,
                },
            ),
            final(self).realm == old(self).realm,
            final(self).interner == old(self).interner,
            final(self).vm.stack == old(self).vm.stack,
            final(self).vm.frames == old(self).vm.frames,
            final(self).vm.active_function == old(self).vm.active_function,
    {
        let ghost h0 = self.heap;
        let ghost base = h0.environments@.len() as int;
        let index = self.vm.environments.push_declarative(1, compile, &mut self.heap);
        let ghost h1 = self.heap;
        proof {
            h1.lemma_bounded();
            assert(h1.environments@[base] == h1.environments@.last());
            assert(h1.environments@[base].bindings@.len() == 1);
        }
        self.vm.environments.put_declarative_value(index, 0, value, &mut self.heap);
        proof {
            self.heap.lemma_extends_transitive(h1, h0);
            self.heap.lemma_stack_wf_extends(h1, self.vm.environments.stack@);
            assert(self.heap.environments@[base]@.bindings =~= seq![Some(value)]);
            assert forall|i: int| 0 <= i < base implies (#[trigger] self.heap.environments@[i])
                == h0.environments@[i] by {
                assert(h1.environments@.drop_last()[i] == h1.environments@[i]);
            }
        }
    }

    /// Pushes the function environment of a call.
    fn push_function_environment(
        &mut self,
        num_bindings: usize,
        compile: CompileTimeEnvironmentRef,
        this: Option<JsValue>,
        function: JsObject,
        new_target: Option<JsObject>,
        lexical: bool,
    )
        requires
            old(self).heap.wf(),
            stack_wf(old(self).vm.environments.stack@, old(self).heap),
            old(self).heap.has_compile_environment(compile),
            forall|i: int|
                0 <= i < old(self).heap.compile_environment(compile).bindings@.len() && old(
                    self,
                ).heap.compile_environment(compile).bindings@[i].var ==> i < num_bindings,
        ensures
            pushed_one(
                old(self).heap,
                old(self).vm.environments.stack@,
                final(self).heap,
                final(self).vm.environments.stack@,
                EnvironmentView {
                    bindings: initial_bindings(
                        num_bindings as int,
                        var_indices(
                            old(self).heap.compile_environment(compile).bindings@,
                            old(self).heap.compile_environment(compile).bindings@.len() as int,
                        ),
                    ),
                    compile,
                    poisoned: old(self).heap.inherited_poisoned(old(self).vm.environments.stack@),
                    with: old(self).heap.inherited_with(old(self).vm.environments.stack@),
                    slots: Some(
                        EnvironmentSlots::Function(
                            FunctionSlots {
                                this: match this {
                                    Some(value) => value,
                                    None => JsValue::Null,
                                },
                                this_binding_status: this_status(this, lexical),
                                function_object: function,
                                new_target,
                            },
                        ),
                    ),
                },
            ),
            final(self).realm == old(self).realm,
            final(self).interner == old(self).interner,
            final(self).vm.stack == old(self).vm.stack,
            final(self).vm.frames == old(self).vm.frames,
            final(self).vm.active_function == old(self).vm.active_function,
    {
        let ghost base = self.heap.environments@.len() as int;
        self.vm.environments.push_function(
            num_bindings,
            compile,
            this,
            function,
            new_target,
            lexical,
            &mut self.heap,
        );
        proof {
            self.heap.lemma_bounded();
            assert(self.heap.environments@[base] == self.heap.environments@.last());
            assert forall|i: int| 0 <= i < base implies (#[trigger] self.heap.environments@[i])
                == old(self).heap.environments@[i] by {
                assert(self.heap.environments@.drop_last()[i] == self.heap.environments@[i]);
            }
        }
    }

    /// Pushes the environment of the parameters of a call.
    fn push_parameters_environment(&mut self, num_bindings: usize, compile: CompileTimeEnvironmentRef)
        requires
            old(self).heap.wf(),
            stack_wf(old(self).vm.environments.stack@, old(self).heap),
            old(self).heap.has_compile_environment(compile),
        ensures
            pushed_one(
                old(self).heap,
                old(self).vm.environments.stack@,
                final(self).heap,
                final(self).vm.environments.stack@,
                EnvironmentView {
                    bindings: initial_bindings(num_bindings as int, Seq::empty()),
                    compile,
                    poisoned: old(self).heap.inherited_poisoned(old(self).vm.environments.stack@),
                    with: old(self).heap.inherited_with(old(self).vm.environments.stack@),
                    slots: None,
                },
            ),
            final(self).realm == old(self).realm,
            final(self).interner == old(self).interner,
            final(self).vm.stack == old(self).vm.stack,
            final(self).vm.frames == old(self).vm.frames,
            final(self).vm.active_function == old(self).vm.active_function,
    {
        let ghost base = self.heap.environments@.len() as int;
        self.vm.environments.push_declarative(num_bindings, compile, &mut self.heap);
        proof {
            self.heap.lemma_bounded();
            assert(self.heap.environments@[base] == self.heap.environments@.last());
            assert forall|i: int| 0 <= i < base implies (#[trigger] self.heap.environments@[i])
                == old(self).heap.environments@[i] by {
                assert(self.heap.environments@.drop_last()[i] == self.heap.environments@[i]);
            }
        }
    }

    /// The environment prologue of a call or a construction: pushes, on the
    /// current stack, an environment that holds the class of a method, an
    /// environment that holds the function itself where it has a binding
    /// identifier, the function environment, and an environment for the
    /// parameters where they have expressions. Returns the index of the
    /// function environment on the stack.
    #[verifier::rlimit(40)]
    pub fn push_call_environments(
        &mut self,
        code: CodeBlockRef,
        class_object: Option<JsObject>,
        function: JsObject,
        this: Option<JsValue>,
        new_target: Option<JsObject>,
        lexical: bool,
    ) -> (function_index: usize)
        requires
            old(self).heap.wf(),
            stack_wf(old(self).vm.environments.stack@, old(self).heap),
            old(self).heap.has_code_block(code),
            old(self).heap.can_enter(old(self).heap.code_block(code), class_object is Some),
        ensures
            function_index == old(self).vm.environments.stack@.len() + old(self).heap.code_block(
                code,
            ).function_position(class_object is Some),
            final(self).vm.environments.stack@ == old(self).vm.environments.stack@
                + fresh_environments(
                old(self).heap.environments@.len() as int,
                old(self).heap.code_block(code).prologue_len(class_object is Some),
            ),
            old(self).heap.entered(
                final(self).heap,
                old(self).heap.prologue_shapes(
                    old(self).vm.environments.stack@,
                    old(self).heap.code_block(code),
                    class_object,
                    function,
                    this,
                    new_target,
                    lexical,
                ),
            ),
            final(self).heap.extends(old(self).heap),
            final(self).heap.wf(),
            stack_wf(final(self).vm.environments.stack@, final(self).heap),
            final(self).realm == old(self).realm,
            final(self).interner == old(self).interner,
            final(self).vm.stack == old(self).vm.stack,
            final(self).vm.frames == old(self).vm.frames,
            final(self).vm.active_function == old(self).vm.active_function,
    {
        let ghost h0 = self.heap;
        let ghost s0 = self.vm.environments.stack@;
        let ghost cb = self.heap.code_block(code);
        let ghost class = class_object is Some;
        proof {
            assert(h0.code_block_wf(h0.code_blocks@[code.index as int]));
            lemma_pushed_none(h0, s0);
        }
        let environments_len = self.heap.code_block_of(&code).compile_environments.len();
        let has_binding_identifier = self.heap.code_block_of(&code).has_binding_identifier;
        let num_bindings = self.heap.code_block_of(&code).num_bindings;
        let parameters_env_bindings = self.heap.code_block_of(&code).parameters_env_bindings;
        let mut last_env: usize = environments_len - 1;
        let ghost mut done: Seq<EnvironmentView> = Seq::empty();

        if let Some(class_object) = class_object {
            let compile = self.heap.code_block_of(&code).compile_environments[last_env];
            let ghost h = self.heap;
            let ghost s = self.vm.environments.stack@;
            self.push_holder(compile, JsValue::Object(class_object));
            proof {
                let shape = EnvironmentView {
                    bindings: seq![Some(JsValue::Object(class_object))],
                    compile,
                    poisoned: h.inherited_poisoned(s),
                    with: h.inherited_with(s),
                    slots: None,
                };
                lemma_pushed_more(
                    h0,
                    s0,
                    h,
                    s,
                    done,
                    self.heap,
                    self.vm.environments.stack@,
                    shape,
                );
                done = done.push(shape);
            }
            last_env -= 1;
        }
        let ghost done_a = done;
        assert(done_a.len() == count_of(class));

        if has_binding_identifier {
            let compile = self.heap.code_block_of(&code).compile_environments[last_env];
            let ghost h = self.heap;
            let ghost s = self.vm.environments.stack@;
            self.push_holder(compile, JsValue::Object(function));
            proof {
                let shape = EnvironmentView {
                    bindings: seq![Some(JsValue::Object(function))],
                    compile,
                    poisoned: h.inherited_poisoned(s),
                    with: h.inherited_with(s),
                    slots: None,
                };
                lemma_pushed_more(
                    h0,
                    s0,
                    h,
                    s,
                    done,
                    self.heap,
                    self.vm.environments.stack@,
                    shape,
                );
                done = done.push(shape);
            }
            last_env -= 1;
        }
        let ghost done_b = done;
        assert(done_b.len() == cb.function_position(class));

        let function_index = self.vm.environments.len();
        let compile = self.heap.code_block_of(&code).compile_environments[last_env];
        let ghost h = self.heap;
        let ghost s = self.vm.environments.stack@;
        self.push_function_environment(num_bindings, compile, this, function, new_target, lexical);
        proof {
            let shape = EnvironmentView {
                bindings: initial_bindings(
                    num_bindings as int,
                    var_indices(
                        h.compile_environment(compile).bindings@,
                        h.compile_environment(compile).bindings@.len() as int,
                    ),
                ),
                compile,
                poisoned: h.inherited_poisoned(s),
                with: h.inherited_with(s),
                slots: Some(
                    EnvironmentSlots::Function(
                        FunctionSlots {
                            this: match this {
                                Some(value) => value,
                                None => JsValue::Null,
                            },
                            this_binding_status: this_status(this, lexical),
                            function_object: function,
                            new_target,
                        },
                    ),
                ),
            };
            lemma_pushed_more(h0, s0, h, s, done, self.heap, self.vm.environments.stack@, shape);
            done = done.push(shape);
        }
        let ghost done_c = done;

        if let Some(bindings) = parameters_env_bindings {
            last_env -= 1;
            let compile = self.heap.code_block_of(&code).compile_environments[last_env];
            let ghost h = self.heap;
            let ghost s = self.vm.environments.stack@;
            self.push_parameters_environment(bindings, compile);
            proof {
                let shape = EnvironmentView {
                    bindings: initial_bindings(bindings as int, Seq::empty()),
                    compile,
                    poisoned: h.inherited_poisoned(s),
                    with: h.inherited_with(s),
                    slots: None,
                };
                lemma_pushed_more(
                    h0,
                    s0,
                    h,
                    s,
                    done,
                    self.heap,
                    self.vm.environments.stack@,
                    shape,
                );
                done = done.push(shape);
            }
        }
        proof {
            assert(done =~= h0.prologue_shapes(
                s0,
                cb,
                class_object,
                function,
                this,
                new_target,
                lexical,
            ));
        }
        function_index
    }
}

} // verus!
