//! The operations of the environment stack.

use crate::environments::compile::var_indices;
use crate::environments::compile::CompileTimeEnvironmentRef;
use crate::environments::runtime::DeclarativeEnvironment;
use crate::environments::runtime::DeclarativeEnvironmentRef;
use crate::environments::runtime::DeclarativeEnvironmentStack;
use crate::environments::runtime::Environment;
use crate::environments::runtime::EnvironmentSlots;
use crate::environments::runtime::FunctionSlots;
use crate::environments::runtime::ThisBindingStatus;
use crate::heap::grown;
use crate::heap::stack_wf;
use crate::heap::Heap;
use crate::interner::name_set;
use crate::interner::names_of;
use crate::interner::Identifier;
use crate::value::JsObject;
use crate::value::JsValue;
use rustc_hash::FxHashSet;
use vstd::prelude::*;

verus! {

/// The greatest index below `end` whose environment satisfies `p`, or -1
/// where none does.
pub open spec fn last_index_where(
    stack: Seq<Environment>,
    end: int,
    p: spec_fn(Environment) -> bool,
) -> int
    decreases end,
{
    if end <= 0 || end > stack.len() {
        -1
    } else if p(stack[end - 1]) {
        end - 1
    } else {
        last_index_where(stack, end - 1, p)
    }
}

/// `last_index_where` returns an index that satisfies the predicate and
/// above which, below `end`, none does; or -1 where none does at all.
pub proof fn lemma_last_index_where(
    stack: Seq<Environment>,
    end: int,
    p: spec_fn(Environment) -> bool,
)
    requires
        0 <= end <= stack.len(),
    ensures
        -1 <= last_index_where(stack, end, p) < end,
        last_index_where(stack, end, p) >= 0 ==> p(stack[last_index_where(stack, end, p)]),
        forall|j: int| last_index_where(stack, end, p) < j < end ==> !p(stack[j]),
    decreases end,
{
    if end > 0 && !p(stack[end - 1]) {
        lemma_last_index_where(stack, end - 1, p);
    }
}

/// An index that satisfies the predicate, with none above it that does, is
/// the one that `last_index_where` returns.
pub proof fn lemma_last_index_is(
    stack: Seq<Environment>,
    end: int,
    p: spec_fn(Environment) -> bool,
    index: int,
)
    requires
        0 <= end <= stack.len(),
        -1 <= index < end,
        index >= 0 ==> p(stack[index]),
        forall|j: int| index < j < end ==> !p(stack[j]),
    ensures
        last_index_where(stack, end, p) == index,
    decreases end,
{
    if end > 0 && index < end - 1 {
        lemma_last_index_is(stack, end - 1, p, index);
    }
}

/// Bindings for a new function environment: `undefined` at the positions
/// declared by `var`, nothing elsewhere.
pub open spec fn initial_bindings(count: int, vars: Seq<usize>) -> Seq<Option<JsValue>> {
    Seq::new(
        count as nat,
        |i: int|
            if vars.contains(i as usize) {
                Some(JsValue::Undefined)
            } else {
                None
            },
    )
}

impl Heap {
    /// Whether the environment is a declarative one with slots.
    pub open spec fn has_slots(self, env: Environment) -> bool {
        env matches Environment::Declarative(e) && self.environment(e).slots is Some
    }

    /// Whether the environment is the environment of a function body.
    pub open spec fn is_function_environment(self, env: Environment) -> bool {
        env matches Environment::Declarative(e) && self.environment(e).slots matches Some(
            EnvironmentSlots::Function(_),
        )
    }

    /// Whether the environment is a declarative one whose scope is that of a
    /// function body or the global scope.
    pub open spec fn is_function_scope(self, env: Environment) -> bool {
        env matches Environment::Declarative(e) && self.compile_of(e).function_scope
    }

    /// Whether the environment provides a `this` binding.
    pub open spec fn provides_this(self, env: Environment) -> bool {
        env matches Environment::Declarative(e) && self.environment(e).slots matches Some(slots)
            && slots.provides_this()
    }

    /// The index of the nearest declarative environment below `end`.
    pub open spec fn nearest_declarative(self, stack: Seq<Environment>, end: int) -> int {
        last_index_where(stack, end, |e: Environment| e is Declarative)
    }

    /// The index of the nearest environment below `end` that has slots.
    pub open spec fn nearest_with_slots(self, stack: Seq<Environment>, end: int) -> int {
        last_index_where(stack, end, |e: Environment| self.has_slots(e))
    }

    /// The index of the nearest function environment below `end`.
    pub open spec fn nearest_function_environment(self, stack: Seq<Environment>) -> int {
        last_index_where(
            stack,
            stack.len() as int,
            |e: Environment| self.is_function_environment(e),
        )
    }

    /// The index of the nearest environment of a function scope.
    pub open spec fn nearest_function_scope(self, stack: Seq<Environment>) -> int {
        last_index_where(stack, stack.len() as int, |e: Environment| self.is_function_scope(e))
    }

    /// The index of the nearest environment that provides `this`.
    pub open spec fn this_environment_index(self, stack: Seq<Environment>) -> int {
        last_index_where(stack, stack.len() as int, |e: Environment| self.provides_this(e))
    }

    /// What a new declarative environment on top of the stack inherits as
    /// its poison flag: that of the nearest declarative environment.
    pub open spec fn inherited_poisoned(self, stack: Seq<Environment>) -> bool {
        self.environment(
            stack[self.nearest_declarative(stack, stack.len() as int)]->Declarative_0,
        ).poisoned
    }

    /// What a new declarative environment on top of the stack inherits as
    /// its `with` flag: set when the top of the stack is an object
    /// environment or the nearest declarative environment has it set.
    pub open spec fn inherited_with(self, stack: Seq<Environment>) -> bool {
        stack.last() is Object || self.environment(
            stack[self.nearest_declarative(stack, stack.len() as int)]->Declarative_0,
        ).with
    }
}

impl Heap {
    /// Whether the environment is a declarative one in which one of the
    /// names is declared by `let`, `const` or `class`.
    pub open spec fn has_lex_conflict(self, env: Environment, names: Set<usize>) -> bool {
        env matches Environment::Declarative(e) && exists|n: usize|
            names.contains(n) && #[trigger] self.compile_of(e).spec_has_lex_binding(n)
    }

    /// Whether the handle occurs on the stack at an index from `from` on.
    pub open spec fn on_stack_from(
        self,
        stack: Seq<Environment>,
        from: int,
        env: DeclarativeEnvironmentRef,
    ) -> bool {
        exists|j: int|
            0 <= j < stack.len() && from <= j && #[trigger] stack[j] == Environment::Declarative(
                env,
            )
    }

    /// Whether this heap differs from `old` in the poison flags of its
    /// declarative environments at most.
    pub open spec fn poison_only(self, old: Heap) -> bool {
        &&& self.same_but_environments(old)
        &&& self.environments@.len() == old.environments@.len()
        &&& forall|i: int|
            0 <= i < old.environments@.len() ==> {
                &&& (#[trigger] self.environments@[i]).bindings == old.environments@[i].bindings
                &&& self.environments@[i].compile == old.environments@[i].compile
                &&& self.environments@[i].with == old.environments@[i].with
                &&& self.environments@[i].slots == old.environments@[i].slots
            }
    }
}

impl DeclarativeEnvironment {
    /// Whether the environment holds exactly the given parts.
    pub open spec fn is(
        self,
        bindings: Seq<Option<JsValue>>,
        compile: CompileTimeEnvironmentRef,
        poisoned: bool,
        with: bool,
        slots: Option<EnvironmentSlots>,
    ) -> bool {
        &&& self.bindings@ == bindings
        &&& self.compile == compile
        &&& self.poisoned == poisoned
        &&& self.with == with
        &&& self.slots == slots
    }

    /// A global environment: no bindings, neither poisoned nor inside a
    /// `with`, with the global slots.
    pub fn new_global(compile: CompileTimeEnvironmentRef) -> (env: Self)
        ensures
            env.is(Seq::empty(), compile, false, false, Some(EnvironmentSlots::Global)),
    {
        DeclarativeEnvironment {
            bindings: Vec::new(),
            compile,
            poisoned: false,
            with: false,
            slots: Some(EnvironmentSlots::Global),
        }
    }
}

/// Bindings for a new environment: `undefined` at the given positions,
/// nothing elsewhere.
fn make_bindings(count: usize, vars: &Vec<usize>) -> (bindings: Vec<Option<JsValue>>)
    requires
        forall|k: int| 0 <= k < vars@.len() ==> vars@[k] < count,
    ensures
        bindings@ == initial_bindings(count as int, vars@),
{
    let mut bindings: Vec<Option<JsValue>> = Vec::new();
    while bindings.len() < count
        invariant
            bindings@.len() <= count,
            forall|i: int| 0 <= i < bindings@.len() ==> bindings@[i] is None,
        decreases count - bindings@.len(),
    {
        bindings.push(None);
    }
    let mut k: usize = 0;
    while k < vars.len()
        invariant
            0 <= k <= vars@.len(),
            bindings@.len() == count,
            forall|j: int| 0 <= j < vars@.len() ==> vars@[j] < count,
            forall|i: int|
                0 <= i < count ==> bindings@[i] == if vars@.subrange(0, k as int).contains(
                    i as usize,
                ) {
                    Some(JsValue::Undefined)
                } else {
                    None::<JsValue>
                },
        decreases vars@.len() - k,
    {
        let index = vars[k];
        bindings[index] = Some(JsValue::Undefined);
        proof {
            let before = vars@.subrange(0, k as int);
            let after = vars@.subrange(0, k + 1);
            assert(after =~= before.push(index));
            assert forall|i: int| 0 <= i < count implies bindings@[i] == if after.contains(
                i as usize,
            ) {
                Some(JsValue::Undefined)
            } else {
                None::<JsValue>
            } by {
                if before.contains(i as usize) {
                    let w = choose|w: int| 0 <= w < before.len() && before[w] == i as usize;
                    assert(after[w] == i as usize);
                } else if i == index {
                    assert(after[k as int] == index);
                } else {
                    if after.contains(i as usize) {
                        let w = choose|w: int| 0 <= w < after.len() && after[w] == i as usize;
                        assert(w < k);
                        assert(before[w] == i as usize);
                    }
                }
            }
        }
        k += 1;
    }
    proof {
        assert(vars@.subrange(0, vars@.len() as int) =~= vars@);
        assert(bindings@ =~= initial_bindings(count as int, vars@));
    }
    bindings
}

impl DeclarativeEnvironmentStack {
    /// A stack that holds the given global environment and nothing else.
    pub fn new(global: DeclarativeEnvironmentRef) -> (stack: Self)
        ensures
            stack.stack@ == seq![Environment::Declarative(global)],
    {
        let mut stack: Vec<Environment> = Vec::new();
        stack.push(Environment::Declarative(global));
        assert(stack@ =~= seq![Environment::Declarative(global)]);
        DeclarativeEnvironmentStack { stack }
    }

    /// A copy of the stack: the same handles in the same order.
    pub fn duplicate(&self) -> (copy: Self)
        ensures
            copy.stack@ == self.stack@,
    {
        let mut stack: Vec<Environment> = Vec::new();
        let mut i: usize = 0;
        while i < self.stack.len()
            invariant
                0 <= i <= self.stack@.len(),
                stack@ == self.stack@.subrange(0, i as int),
            decreases self.stack@.len() - i,
        {
            stack.push(self.stack[i]);
            assert(self.stack@.subrange(0, i + 1) =~= self.stack@.subrange(0, i as int).push(
                self.stack@[i as int],
            ));
            i += 1;
        }
        assert(self.stack@.subrange(0, self.stack@.len() as int) =~= self.stack@);
        DeclarativeEnvironmentStack { stack }
    }

    /// Replaces the global environment, at index 0, with another one.
    pub fn replace_global(&mut self, global: DeclarativeEnvironmentRef)
        requires
            old(self).stack@.len() >= 1,
        ensures
            final(self).stack@ == old(self).stack@.update(0, Environment::Declarative(global)),
    {
        self.stack[0] = Environment::Declarative(global);
    }

    /// Grows the nearest function environment to the number of bindings
    /// that its compile-time environment has by now. The new bindings are
    /// not initialized. No environment is added or removed.
    pub fn extend_outer_function_environment(&self, heap: &mut Heap)
        requires
            old(heap).wf(),
            stack_wf(self.stack@, *old(heap)),
        ensures
            final(heap).extends(*old(heap)),
            final(heap).wf(),
            final(heap).environments@.len() == old(heap).environments@.len(),
            old(heap).nearest_function_environment(self.stack@) < 0 ==> *final(heap) == *old(heap),
            old(heap).nearest_function_environment(self.stack@) >= 0 ==> {
                let env = self.stack@[old(heap).nearest_function_environment(
                    self.stack@,
                )]->Declarative_0;
                &&& final(heap).changed_environment(*old(heap), env)
                &&& final(heap).environment(env).poisoned == old(heap).environment(env).poisoned
                &&& final(heap).environment(env).bindings@ == grown(
                    old(heap).environment(env).bindings@,
                    old(heap).compile_of(env).bindings@.len() as int,
                )
            },
    {
        let ghost p = |e: Environment| heap.is_function_environment(e);
        let mut i: usize = self.stack.len();
        while i > 0
            invariant
                0 <= i <= self.stack@.len(),
                *heap == *old(heap),
                heap.wf(),
                stack_wf(self.stack@, *heap),
                p == (|e: Environment| heap.is_function_environment(e)),
                forall|j: int| i <= j < self.stack@.len() ==> !p(self.stack@[j]),
            decreases i,
        {
            i -= 1;
            if let Environment::Declarative(env) = self.stack[i] {
                if let Some(EnvironmentSlots::Function(_)) = heap.environment_of(&env).slots {
                    proof {
                        assert(p(self.stack@[i as int]));
                        lemma_last_index_is(self.stack@, self.stack@.len() as int, p, i as int);
                    }
                    let compile = heap.environment_of(&env).compile;
                    let count = heap.compile_environment_of(&compile).num_bindings();
                    heap.grow_bindings(env, count);
                    return ;
                }
            }
        }
        proof {
            lemma_last_index_is(self.stack@, self.stack@.len() as int, p, -1);
        }
    }

    /// Removes all environments but the global one and returns them, in
    /// order.
    pub fn pop_to_global(&mut self) -> (rest: Vec<Environment>)
        requires
            old(self).stack@.len() >= 1,
        ensures
            final(self).stack@ == old(self).stack@.subrange(0, 1),
            rest@ == old(self).stack@.subrange(1, old(self).stack@.len() as int),
    {
        self.stack.split_off(1)
    }

    /// The number of environments on the stack.
    pub fn len(&self) -> (n: usize)
        ensures
            n == self.stack@.len(),
    {
        self.stack.len()
    }

    /// Removes the environments from index `len` on; a stack that is not
    /// longer than `len` is left as it is.
    pub fn truncate(&mut self, len: usize)
        ensures
            len <= old(self).stack@.len() ==> final(self).stack@ == old(self).stack@.subrange(
                0,
                len as int,
            ),
            len > old(self).stack@.len() ==> final(self).stack@ == old(self).stack@,
    {
        self.stack.truncate(len);
    }

    /// Puts the given environments on top of the stack, in order.
    pub fn extend(&mut self, other: Vec<Environment>)
        ensures
            final(self).stack@ == old(self).stack@ + other@,
    {
        let mut other = other;
        self.stack.append(&mut other);
    }

    /// `GetThisEnvironment`: the slots of the nearest environment that
    /// provides a `this` binding, which is the global environment or a
    /// function environment whose `this` is not lexical.
    pub fn get_this_environment<'a>(&self, heap: &'a Heap) -> (slots: &'a EnvironmentSlots)
        requires
            stack_wf(self.stack@, *heap),
        ensures
            0 <= heap.this_environment_index(self.stack@) < self.stack@.len(),
            heap.provides_this(self.stack@[heap.this_environment_index(self.stack@)]),
            Some(*slots) == heap.environment(
                self.stack@[heap.this_environment_index(self.stack@)]->Declarative_0,
            ).slots,
    {
        let ghost p = |e: Environment| heap.provides_this(e);
        let mut i: usize = self.stack.len();
        while i > 1
            invariant
                1 <= i <= self.stack@.len(),
                stack_wf(self.stack@, *heap),
                p == (|e: Environment| heap.provides_this(e)),
                forall|j: int| i <= j < self.stack@.len() ==> !p(self.stack@[j]),
            decreases i,
        {
            i -= 1;
            if let Environment::Declarative(env) = self.stack[i] {
                if let Some(slots) = &heap.environment_of(&env).slots {
                    let provides = match slots {
                        EnvironmentSlots::Function(function_env) => function_env.has_this_binding(),
                        EnvironmentSlots::Global => true,
                    };
                    if provides {
                        proof {
                            assert(p(self.stack@[i as int]));
                            lemma_last_index_is(self.stack@, self.stack@.len() as int, p, i as int);
                        }
                        return slots;
                    }
                }
            }
        }
        let env = self.stack[0].declarative_expect();
        proof {
            assert(heap.is_global_environment(env));
            assert(p(self.stack@[0]));
            lemma_last_index_is(self.stack@, self.stack@.len() as int, p, 0);
        }
        match &heap.environment_of(&env).slots {
            Some(slots) => slots,
            None => vstd::pervasive::unreached(),
        }
    }

    /// Pushes an object environment and returns its index.
    pub fn push_object(&mut self, object: JsObject) -> (index: usize)
        ensures
            index == old(self).stack@.len(),
            final(self).stack@ == old(self).stack@.push(Environment::Object(object)),
    {
        let index = self.stack.len();
        self.stack.push(Environment::Object(object));
        index
    }

    /// The poison flag and the `with` flag that a new declarative
    /// environment on top of this stack inherits.
    fn inherited_flags(&self, heap: &Heap) -> (flags: (bool, bool))
        requires
            stack_wf(self.stack@, *heap),
        ensures
            flags.0 == heap.inherited_poisoned(self.stack@),
            flags.1 == heap.inherited_with(self.stack@),
            0 <= heap.nearest_declarative(self.stack@, self.stack@.len() as int)
                < self.stack@.len(),
    {
        let ghost p = |e: Environment| e is Declarative;
        let with = self.stack[self.stack.len() - 1].as_declarative().is_none();
        let mut i: usize = self.stack.len();
        while i > 1
            invariant
                1 <= i <= self.stack@.len(),
                stack_wf(self.stack@, *heap),
                with == (self.stack@.last() is Object),
                p == (|e: Environment| e is Declarative),
                forall|j: int| i <= j < self.stack@.len() ==> !p(self.stack@[j]),
            decreases i,
        {
            i -= 1;
            if let Environment::Declarative(env) = self.stack[i] {
                proof {
                    assert(p(self.stack@[i as int]));
                    lemma_last_index_is(self.stack@, self.stack@.len() as int, p, i as int);
                }
                let environment = heap.environment_of(&env);
                return (environment.poisoned, with || environment.with);
            }
        }
        let env = self.stack[0].declarative_expect();
        proof {
            assert(p(self.stack@[0]));
            lemma_last_index_is(self.stack@, self.stack@.len() as int, p, 0);
        }
        let environment = heap.environment_of(&env);
        (environment.poisoned, with || environment.with)
    }

    /// Pushes a declarative environment with `num_bindings` uninitialized
    /// bindings and returns its index. The environment inherits its poison
    /// flag from the nearest declarative environment, and is inside a `with`
    /// if that one is or if the top of the stack is an object environment.
    pub fn push_declarative(
        &mut self,
        num_bindings: usize,
        compile_environment: CompileTimeEnvironmentRef,
        heap: &mut Heap,
    ) -> (index: usize)
        requires
            old(heap).wf(),
            stack_wf(old(self).stack@, *old(heap)),
            old(heap).has_compile_environment(compile_environment),
        ensures
            index == old(self).stack@.len(),
            final(self).stack@ == old(self).stack@.push(
                Environment::Declarative(
                    DeclarativeEnvironmentRef { index: old(heap).environments@.len() as usize },
                ),
            ),
            final(heap).same_but_environments(*old(heap)),
            final(heap).environments@.drop_last() == old(heap).environments@,
            final(heap).environments@.len() == old(heap).environments@.len() + 1,
            final(heap).environments@.last().is(
                initial_bindings(num_bindings as int, Seq::empty()),
                compile_environment,
                old(heap).inherited_poisoned(old(self).stack@),
                old(heap).inherited_with(old(self).stack@),
                None,
            ),
            final(heap).extends(*old(heap)),
            final(heap).wf(),
            stack_wf(final(self).stack@, *final(heap)),
    {
        let (poisoned, with) = self.inherited_flags(heap);
        let index = self.stack.len();
        let none: Vec<usize> = Vec::new();
        let env = heap.alloc_environment(
            DeclarativeEnvironment {
                bindings: make_bindings(num_bindings, &none),
                compile: compile_environment,
                poisoned,
                with,
                slots: None,
            },
        );
        self.stack.push(Environment::Declarative(env));
        proof {
            assert(heap.environments@.drop_last() =~= old(heap).environments@);
            heap.lemma_stack_wf_extends(*old(heap), old(self).stack@);
        }
        index
    }

    /// Pushes a function environment. Its `this` binding is lexical if
    /// `lexical` is set, else initialized if `this` is given, else
    /// uninitialized. The bindings that the compile-time environment
    /// declares by `var` start as `undefined`, the others are not
    /// initialized. The flags are inherited as by `push_declarative`.
    pub fn push_function(
        &mut self,
        num_bindings: usize,
        compile_environment: CompileTimeEnvironmentRef,
        this: Option<JsValue>,
        function_object: JsObject,
        new_target: Option<JsObject>,
        lexical: bool,
        heap: &mut Heap,
    )
        requires
            old(heap).wf(),
            stack_wf(old(self).stack@, *old(heap)),
            old(heap).has_compile_environment(compile_environment),
            forall|i: int|
                0 <= i < old(heap).compile_environment(compile_environment).bindings@.len() && old(
                    heap,
                ).compile_environment(compile_environment).bindings@[i].var ==> i < num_bindings,
        ensures
            final(self).stack@ == old(self).stack@.push(
                Environment::Declarative(
                    DeclarativeEnvironmentRef { index: old(heap).environments@.len() as usize },
                ),
            ),
            final(heap).same_but_environments(*old(heap)),
            final(heap).environments@.drop_last() == old(heap).environments@,
            final(heap).environments@.len() == old(heap).environments@.len() + 1,
            final(heap).environments@.last().is(
                initial_bindings(
                    num_bindings as int,
                    var_indices(
                        old(heap).compile_environment(compile_environment).bindings@,
                        old(heap).compile_environment(compile_environment).bindings@.len() as int,
                    ),
                ),
                compile_environment,
                old(heap).inherited_poisoned(old(self).stack@),
                old(heap).inherited_with(old(self).stack@),
                Some(
                    EnvironmentSlots::Function(
                        FunctionSlots {
                            this: match this {
                                Some(value) => value,
                                None => JsValue::Null,
                            },
                            this_binding_status: if lexical {
                                ThisBindingStatus::Lexical
                            } else if this is Some {
                                ThisBindingStatus::Initialized
                            } else {
                                ThisBindingStatus::Uninitialized
                            },
                            function_object,
                            new_target,
                        },
                    ),
                ),
            ),
            final(heap).extends(*old(heap)),
            final(heap).wf(),
            stack_wf(final(self).stack@, *final(heap)),
    {
        let (poisoned, with) = self.inherited_flags(heap);
        let this_binding_status = if lexical {
            ThisBindingStatus::Lexical
        } else if this.is_some() {
            ThisBindingStatus::Initialized
        } else {
            ThisBindingStatus::Uninitialized
        };
        let this = match this {
            Some(value) => value,
            None => JsValue::Null,
        };
        let vars = heap.compile_environment_of(&compile_environment).var_binding_indices();
        proof {
            let bindings = heap.compile_environment(compile_environment).bindings@;
            assert(heap.compile_environment(compile_environment).bindings.len() <= usize::MAX);
            crate::environments::compile::lemma_var_indices(bindings, bindings.len() as int);
        }
        let env = heap.alloc_environment(
            DeclarativeEnvironment {
                bindings: make_bindings(num_bindings, &vars),
                compile: compile_environment,
                poisoned,
                with,
                slots: Some(
                    EnvironmentSlots::Function(
                        FunctionSlots { this, this_binding_status, function_object, new_target },
                    ),
                ),
            },
        );
        self.stack.push(Environment::Declarative(env));
        proof {
            assert(heap.environments@.drop_last() =~= old(heap).environments@);
            heap.lemma_stack_wf_extends(*old(heap), old(self).stack@);
        }
    }

    /// Pushes a function environment whose slots, `this` included, are a
    /// copy of those of the nearest environment that has slots. The
    /// compile-time environment must be the one made for this position of
    /// the stack. Bindings and flags are as for `push_function`.
    pub fn push_function_inherit(
        &mut self,
        num_bindings: usize,
        compile_environment: CompileTimeEnvironmentRef,
        heap: &mut Heap,
    )
        requires
            old(heap).wf(),
            stack_wf(old(self).stack@, *old(heap)),
            old(heap).has_compile_environment(compile_environment),
            old(heap).compile_environment(compile_environment).environment_index == old(
                self,
            ).stack@.len(),
            forall|i: int|
                0 <= i < old(heap).compile_environment(compile_environment).bindings@.len() && old(
                    heap,
                ).compile_environment(compile_environment).bindings@[i].var ==> i < num_bindings,
        ensures
            final(self).stack@ == old(self).stack@.push(
                Environment::Declarative(
                    DeclarativeEnvironmentRef { index: old(heap).environments@.len() as usize },
                ),
            ),
            final(heap).same_but_environments(*old(heap)),
            final(heap).environments@.drop_last() == old(heap).environments@,
            final(heap).environments@.len() == old(heap).environments@.len() + 1,
            0 <= old(heap).nearest_with_slots(old(self).stack@, old(self).stack@.len() as int) < old(
                self,
            ).stack@.len(),
            final(heap).environments@.last().is(
                initial_bindings(
                    num_bindings as int,
                    var_indices(
                        old(heap).compile_environment(compile_environment).bindings@,
                        old(heap).compile_environment(compile_environment).bindings@.len() as int,
                    ),
                ),
                compile_environment,
                old(heap).inherited_poisoned(old(self).stack@),
                old(heap).inherited_with(old(self).stack@),
                old(heap).environment(
                    old(self).stack@[old(heap).nearest_with_slots(
                        old(self).stack@,
                        old(self).stack@.len() as int,
                    )]->Declarative_0,
                ).slots,
            ),
            final(heap).extends(*old(heap)),
            final(heap).wf(),
            stack_wf(final(self).stack@, *final(heap)),
    {
        let (poisoned, with) = self.inherited_flags(heap);
        let slots = self.nearest_slots(heap);
        let vars = heap.compile_environment_of(&compile_environment).var_binding_indices();
        proof {
            let bindings = heap.compile_environment(compile_environment).bindings@;
            assert(heap.compile_environment(compile_environment).bindings.len() <= usize::MAX);
            crate::environments::compile::lemma_var_indices(bindings, bindings.len() as int);
        }
        let env = heap.alloc_environment(
            DeclarativeEnvironment {
                bindings: make_bindings(num_bindings, &vars),
                compile: compile_environment,
                poisoned,
                with,
                slots,
            },
        );
        self.stack.push(Environment::Declarative(env));
        proof {
            assert(heap.environments@.drop_last() =~= old(heap).environments@);
            heap.lemma_stack_wf_extends(*old(heap), old(self).stack@);
        }
    }

    /// The slots of the nearest environment that has slots.
    fn nearest_slots(&self, heap: &Heap) -> (slots: Option<EnvironmentSlots>)
        requires
            stack_wf(self.stack@, *heap),
        ensures
            0 <= heap.nearest_with_slots(self.stack@, self.stack@.len() as int)
                < self.stack@.len(),
            slots == heap.environment(
                self.stack@[heap.nearest_with_slots(
                    self.stack@,
                    self.stack@.len() as int,
                )]->Declarative_0,
            ).slots,
    {
        let ghost p = |e: Environment| heap.has_slots(e);
        let mut i: usize = self.stack.len();
        while i > 1
            invariant
                1 <= i <= self.stack@.len(),
                stack_wf(self.stack@, *heap),
                p == (|e: Environment| heap.has_slots(e)),
                forall|j: int| i <= j < self.stack@.len() ==> !p(self.stack@[j]),
            decreases i,
        {
            i -= 1;
            if let Environment::Declarative(env) = self.stack[i] {
                if heap.environment_of(&env).slots.is_some() {
                    proof {
                        assert(p(self.stack@[i as int]));
                        lemma_last_index_is(self.stack@, self.stack@.len() as int, p, i as int);
                    }
                    return heap.environment_of(&env).slots;
                }
            }
        }
        let env = self.stack[0].declarative_expect();
        proof {
            assert(heap.is_global_environment(env));
            assert(p(self.stack@[0]));
            lemma_last_index_is(self.stack@, self.stack@.len() as int, p, 0);
        }
        heap.environment_of(&env).slots
    }

    /// Removes the top environment and returns it. The global environment
    /// cannot be popped.
    pub fn pop(&mut self) -> (env: Environment)
        requires
            old(self).stack@.len() > 1,
        ensures
            env == old(self).stack@.last(),
            final(self).stack@ == old(self).stack@.drop_last(),
    {
        match self.stack.pop() {
            Some(env) => env,
            None => vstd::pervasive::unreached(),
        }
    }

    /// The top environment.
    pub fn current(&self) -> (env: Environment)
        requires
            self.stack@.len() >= 1,
        ensures
            env == self.stack@.last(),
    {
        self.stack[self.stack.len() - 1]
    }

    /// The compile-time environment of the nearest declarative environment.
    pub fn current_compile_environment(&self, heap: &Heap) -> (compile: CompileTimeEnvironmentRef)
        requires
            stack_wf(self.stack@, *heap),
        ensures
            0 <= heap.nearest_declarative(self.stack@, self.stack@.len() as int)
                < self.stack@.len(),
            compile == heap.environment(
                self.stack@[heap.nearest_declarative(
                    self.stack@,
                    self.stack@.len() as int,
                )]->Declarative_0,
            ).compile,
    {
        let ghost p = |e: Environment| e is Declarative;
        let mut i: usize = self.stack.len();
        while i > 1
            invariant
                1 <= i <= self.stack@.len(),
                stack_wf(self.stack@, *heap),
                p == (|e: Environment| e is Declarative),
                forall|j: int| i <= j < self.stack@.len() ==> !p(self.stack@[j]),
            decreases i,
        {
            i -= 1;
            if let Environment::Declarative(env) = self.stack[i] {
                proof {
                    assert(p(self.stack@[i as int]));
                    lemma_last_index_is(self.stack@, self.stack@.len() as int, p, i as int);
                }
                return heap.environment_of(&env).compile;
            }
        }
        let env = self.stack[0].declarative_expect();
        proof {
            assert(p(self.stack@[0]));
            lemma_last_index_is(self.stack@, self.stack@.len() as int, p, 0);
        }
        heap.environment_of(&env).compile
    }

    /// Stores a value in a declarative binding, whatever it held.
    pub fn put_declarative_value(
        &self,
        environment_index: usize,
        binding_index: usize,
        value: JsValue,
        heap: &mut Heap,
    )
        requires
            old(heap).wf(),
            environment_index < self.stack@.len(),
            self.stack@[environment_index as int] matches Environment::Declarative(env) && old(
                heap,
            ).has_environment(env) && binding_index < old(heap).environment(env).bindings@.len(),
        ensures
            ({
                let env = self.stack@[environment_index as int]->Declarative_0;
                &&& final(heap).changed_environment(*old(heap), env)
                &&& final(heap).environment(env).poisoned == old(heap).environment(env).poisoned
                &&& final(heap).environment(env).bindings@ == old(heap).environment(
                    env,
                ).bindings@.update(binding_index as int, Some(value))
            }),
            final(heap).extends(*old(heap)),
            final(heap).wf(),
    {
        let env = self.stack[environment_index].declarative_expect();
        heap.store_binding(env, binding_index, Some(value));
    }

    /// Stores a value in a declarative binding unless the binding holds a
    /// value already; a value that is present is never replaced.
    pub fn put_value_if_uninitialized(
        &self,
        environment_index: usize,
        binding_index: usize,
        value: JsValue,
        heap: &mut Heap,
    )
        requires
            old(heap).wf(),
            environment_index < self.stack@.len(),
            self.stack@[environment_index as int] matches Environment::Declarative(env) && old(
                heap,
            ).has_environment(env) && binding_index < old(heap).environment(env).bindings@.len(),
        ensures
            ({
                let env = self.stack@[environment_index as int]->Declarative_0;
                let before = old(heap).environment(env).bindings@;
                &&& before[binding_index as int] is Some ==> *final(heap) == *old(heap)
                &&& before[binding_index as int] is None ==> {
                    &&& final(heap).changed_environment(*old(heap), env)
                    &&& final(heap).environment(env).poisoned == old(heap).environment(
                        env,
                    ).poisoned
                    &&& final(heap).environment(env).bindings@ == before.update(
                        binding_index as int,
                        Some(value),
                    )
                }
            }),
            final(heap).extends(*old(heap)),
            final(heap).wf(),
    {
        let env = self.stack[environment_index].declarative_expect();
        if heap.environment_of(&env).bindings[binding_index].is_none() {
            heap.store_binding(env, binding_index, Some(value));
        }
    }

    /// Marks as poisoned every declarative environment from the top of the
    /// stack down to the nearest one whose scope is that of a function,
    /// that one included; all of them where there is none. Nothing else
    /// changes.
    pub fn poison_until_last_function(&self, heap: &mut Heap)
        requires
            old(heap).wf(),
            stack_wf(self.stack@, *old(heap)),
        ensures
            final(heap).poison_only(*old(heap)),
            forall|env: DeclarativeEnvironmentRef|
                old(heap).has_environment(env) ==> (#[trigger] final(heap).environment(
                    env,
                )).poisoned == (old(heap).environment(env).poisoned || old(heap).on_stack_from(
                    self.stack@,
                    old(heap).nearest_function_scope(self.stack@),
                    env,
                )),
            final(heap).extends(*old(heap)),
            final(heap).wf(),
    {
        let ghost p = |e: Environment| old(heap).is_function_scope(e);
        let mut i: usize = self.stack.len();
        while i > 0
            invariant
                0 <= i <= self.stack@.len(),
                old(heap).wf(),
                heap.wf(),
                stack_wf(self.stack@, *old(heap)),
                heap.poison_only(*old(heap)),
                heap.extends(*old(heap)),
                p == (|e: Environment| old(heap).is_function_scope(e)),
                forall|j: int| i <= j < self.stack@.len() ==> !p(self.stack@[j]),
                forall|env: DeclarativeEnvironmentRef|
                    old(heap).has_environment(env) ==> (#[trigger] heap.environment(env)).poisoned
                        == (old(heap).environment(env).poisoned || old(heap).on_stack_from(
                        self.stack@,
                        i as int,
                        env,
                    )),
            decreases i,
        {
            i -= 1;
            let ghost before = *heap;
            if let Environment::Declarative(env) = self.stack[i] {
                heap.poison(env);
                let compile = heap.environment_of(&env).compile;
                let function = heap.compile_environment_of(&compile).is_function();
                proof {
                    heap.lemma_extends_transitive(before, *old(heap));
                    assert forall|other: DeclarativeEnvironmentRef|
                        old(heap).has_environment(other) implies (#[trigger] heap.environment(
                        other,
                    )).poisoned == (old(heap).environment(other).poisoned || old(
                        heap,
                    ).on_stack_from(self.stack@, i as int, other)) by {
                        assert(before.environment(other).poisoned == (old(heap).environment(
                            other,
                        ).poisoned || old(heap).on_stack_from(self.stack@, i + 1, other)));
                        if other == env {
                            assert(self.stack@[i as int] == Environment::Declarative(other));
                        } else {
                            assert(heap.environment(other) == before.environment(other));
                            if old(heap).on_stack_from(self.stack@, i as int, other) {
                                let j = choose|j: int|
                                    0 <= j < self.stack@.len() && i <= j
                                        && #[trigger] self.stack@[j] == Environment::Declarative(
                                        other,
                                    );
                                assert(j != i);
                                assert(self.stack@[j] == Environment::Declarative(other));
                            }
                        }
                    }
                }
                if function {
                    proof {
                        assert(p(self.stack@[i as int]));
                        lemma_last_index_is(self.stack@, self.stack@.len() as int, p, i as int);
                    }
                    return ;
                }
            } else {
                proof {
                    assert forall|other: DeclarativeEnvironmentRef|
                        old(heap).has_environment(other) implies (#[trigger] heap.environment(
                        other,
                    )).poisoned == (old(heap).environment(other).poisoned || old(
                        heap,
                    ).on_stack_from(self.stack@, i as int, other)) by {
                        assert(before.environment(other).poisoned == (old(heap).environment(
                            other,
                        ).poisoned || old(heap).on_stack_from(self.stack@, i + 1, other)));
                        if old(heap).on_stack_from(self.stack@, i as int, other) {
                            let j = choose|j: int|
                                0 <= j < self.stack@.len() && i <= j
                                    && #[trigger] self.stack@[j] == Environment::Declarative(other);
                            assert(j != i);
                            assert(self.stack@[j] == Environment::Declarative(other));
                        }
                    }
                }
            }
        }
        proof {
            lemma_last_index_is(self.stack@, self.stack@.len() as int, p, -1);
            assert forall|env: DeclarativeEnvironmentRef|
                old(heap).has_environment(env) implies old(heap).on_stack_from(
                self.stack@,
                -1,
                env,
            ) == old(heap).on_stack_from(self.stack@, 0, env) by {
                if old(heap).on_stack_from(self.stack@, -1, env) {
                    let j = choose|j: int|
                        0 <= j < self.stack@.len() && -1 <= j
                            && #[trigger] self.stack@[j] == Environment::Declarative(env);
                    assert(self.stack@[j] == Environment::Declarative(env));
                }
                if old(heap).on_stack_from(self.stack@, 0, env) {
                    let j = choose|j: int|
                        0 <= j < self.stack@.len() && 0 <= j
                            && #[trigger] self.stack@[j] == Environment::Declarative(env);
                    assert(self.stack@[j] == Environment::Declarative(env));
                }
            }
        }
    }

    /// Looks for a name of the set that is declared by `let`, `const` or
    /// `class` in a declarative environment, from the top of the stack down
    /// to the nearest environment of a function scope, that one included.
    /// The answer is taken from the first environment that declares one of
    /// the names so, or is that of a function scope: a name that it declares
    /// so, if there is one, and nothing otherwise.
    pub fn has_lex_binding_until_function_environment(
        &self,
        names: &FxHashSet<Identifier>,
        heap: &Heap,
    ) -> (found: Option<Identifier>)
        requires
            heap.wf(),
            stack_wf(self.stack@, *heap),
        ensures
            ({
                let stop = last_index_where(
                    self.stack@,
                    self.stack@.len() as int,
                    |e: Environment|
                        heap.has_lex_conflict(e, name_set(*names)) || heap.is_function_scope(e),
                );
                match found {
                    Some(name) => stop >= 0 && name_set(*names).contains(name.index())
                        && self.stack@[stop] is Declarative && heap.compile_of(
                        self.stack@[stop]->Declarative_0,
                    ).spec_has_lex_binding(name.index()),
                    None => stop < 0 || !heap.has_lex_conflict(self.stack@[stop], name_set(*names)),
                }
            }),
    {
        let ghost p = |e: Environment|
            heap.has_lex_conflict(e, name_set(*names)) || heap.is_function_scope(e);
        let list = names_of(names);
        let mut i: usize = self.stack.len();
        while i > 0
            invariant
                0 <= i <= self.stack@.len(),
                heap.wf(),
                stack_wf(self.stack@, *heap),
                p == (|e: Environment|
                    heap.has_lex_conflict(e, name_set(*names)) || heap.is_function_scope(e)),
                forall|j: int| i <= j < self.stack@.len() ==> !p(self.stack@[j]),
                forall|n: usize|
                    name_set(*names).contains(n) <==> exists|k: int|
                        0 <= k < list@.len() && (#[trigger] list@[k]).index() == n,
            decreases i,
        {
            i -= 1;
            if let Environment::Declarative(env) = self.stack[i] {
                let compile_ref = heap.environment_of(&env).compile;
                let compile = heap.compile_environment_of(&compile_ref);
                let mut k: usize = 0;
                while k < list.len()
                    invariant
                        0 <= k <= list@.len(),
                        0 <= i < self.stack@.len(),
                        self.stack@[i as int] == Environment::Declarative(env),
                        *compile == heap.compile_of(env),
                        p == (|e: Environment|
                            heap.has_lex_conflict(e, name_set(*names)) || heap.is_function_scope(
                                e,
                            )),
                        forall|j: int| i < j < self.stack@.len() ==> !p(self.stack@[j]),
                        forall|n: usize|
                            name_set(*names).contains(n) <==> exists|w: int|
                                0 <= w < list@.len() && (#[trigger] list@[w]).index() == n,
                        forall|j: int|
                            0 <= j < k ==> !compile.spec_has_lex_binding(
                                (#[trigger] list@[j]).index(),
                            ),
                    decreases list@.len() - k,
                {
                    if compile.has_lex_binding(list[k]) {
                        proof {
                            assert(list@[k as int].index() == list@[k as int].index());
                            assert(name_set(*names).contains(list@[k as int].index()));
                            assert(heap.has_lex_conflict(self.stack@[i as int], name_set(*names)));
                            assert(p(self.stack@[i as int]));
                            lemma_last_index_is(self.stack@, self.stack@.len() as int, p, i as int);
                        }
                        return Some(list[k]);
                    }
                    k += 1;
                }
                proof {
                    if heap.has_lex_conflict(self.stack@[i as int], name_set(*names)) {
                        let n = choose|n: usize|
                            name_set(*names).contains(n) && #[trigger] heap.compile_of(
                                env,
                            ).spec_has_lex_binding(n);
                        let w = choose|w: int|
                            0 <= w < list@.len() && (#[trigger] list@[w]).index() == n;
                        assert(!compile.spec_has_lex_binding(list@[w].index()));
                    }
                }
                if compile.is_function() {
                    proof {
                        assert(p(self.stack@[i as int]));
                        lemma_last_index_is(self.stack@, self.stack@.len() as int, p, i as int);
                    }
                    return None;
                }
            }
        }
        proof {
            lemma_last_index_is(self.stack@, self.stack@.len() as int, p, -1);
        }
        None
    }
}

} // verus!
