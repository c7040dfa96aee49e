//! The global `eval` function.
//!
//! Evaluating a string takes a parser, a compiler and an interpreter, none
//! of which are part of this crate. The work is therefore cut at those
//! points:
//! - [`Eval::perform_eval`] returns a value that is no string as it is, and
//!   asks for the host's consent and for the parse of a string;
//! - [`Eval::prepare`] takes what the parse found, raises the early
//!   errors and installs the scope in which the code will run;
//! - [`Eval::compiled`] makes room for the bindings that the compiler
//!   declared;
//! - [`Eval::finish`] restores the environment stack, whatever the outcome
//!   of the run was.

use crate::context::Context;
use crate::environments::compile::CompileTimeEnvironmentRef;
use crate::environments::runtime::Environment;
use crate::environments::runtime::EnvironmentSlots;
use crate::environments::stack::last_index_where;
use crate::environments::stack::lemma_last_index_where;
use crate::error::JsError;
use crate::error::JsNativeError;
use crate::error::JsNativeErrorKind;
use crate::error::JsResult;
use crate::builtins::arguments::length_key;
use crate::builtins::arguments::length_property_key;
use crate::function::Function;
use crate::function::FunctionKind;
use crate::function::NativeFunction;
use crate::heap::lemma_wf_carries;
use crate::object::Attributes;
use crate::object::Object;
use crate::object::ObjectData;
use crate::object::Property;
use crate::object::PropertyKeyView;
use crate::realm::Intrinsics;
use crate::realm::Realm;
use crate::value::JsObject;
use crate::vm::function_object::name_attributes;
use crate::vm::function_object::name_key;
use crate::vm::function_object::name_property_key;
use crate::vm::function_object::property_is;
use crate::heap::stack_wf;
use crate::heap::Heap;
use crate::interner::interner_strings;
use crate::interner::name_set;
use crate::interner::resolve_name;
use crate::interner::interner_texts;
use crate::interner::Identifier;
use crate::value::get_or_undefined;
use crate::value::spec_get_or_undefined;
use crate::value::JsString;
use crate::value::JsValue;
use rustc_hash::FxHashSet;
use vstd::prelude::*;
use vstd::string::*;

verus! {

/// The `eval` intrinsic.
#[derive(Clone, Copy, Debug)]
pub struct Eval;

/// The number under which the host finds the `eval` function.
pub const EVAL_FUNCTION: usize = 0;

/// The code units of `eval`.
pub open spec fn eval_name() -> Seq<u16> {
    seq![101u16, 118u16, 97u16, 108u16]
}

/// Where a direct `eval` stands, which decides the early errors.
#[derive(Clone, Copy, Debug, PartialEq, Eq, Structural)]
pub struct EvalFlags {
    pub in_function: bool,
    pub in_method: bool,
    pub in_derived_constructor: bool,
    pub in_class_field_initializer: bool,
}

/// What the parse of the source text found.
pub struct ParsedEval {
    /// The code has a `"use strict"` directive.
    pub strict: bool,
    /// The code contains `new.target`.
    pub contains_new_target: bool,
    /// The code contains a `super` property access.
    pub contains_super_property: bool,
    /// The code contains a `super()` call.
    pub contains_super_call: bool,
    /// The code contains `arguments`.
    pub contains_arguments: bool,
    /// The names that the code declares by `var` at its top level.
    pub var_declared_names: FxHashSet<Identifier>,
}

/// What restores the environment stack once the code has run.
#[derive(Debug)]
pub enum EnvStackAction {
    /// Cut the stack back to this length.
    Truncate(usize),
    /// Cut the stack back to the global environment and put these
    /// environments on it.
    Restore(Vec<Environment>),
}

/// How an evaluation goes on.
#[derive(Debug)]
pub enum EvalStep {
    /// The evaluation is over, with this result.
    Done(JsResult<JsValue>),
    /// The host has to agree to compile strings in the current realm, and
    /// this string has to be parsed as a script, in strict mode if `strict`
    /// is set, with what a direct `eval` allows if `direct` is set.
    Parse { source: JsString, direct: bool, strict: bool },
}

/// What an evaluation keeps from its preparation.
#[derive(Debug)]
pub struct EvalPlan {
    /// What restores the environment stack.
    pub action: EnvStackAction,
    /// The call is a direct one.
    pub direct: bool,
    /// The code runs in strict mode.
    pub strict: bool,
    /// The compile-time environment in which the code is compiled.
    pub compile_environment: CompileTimeEnvironmentRef,
}

/// The early error of an evaluation, if it has one: the message of the
/// first of these that applies.
pub open spec fn early_error(flags: EvalFlags, body: ParsedEval) -> Option<Seq<char>> {
    if !flags.in_function && body.contains_new_target {
        Some("invalid `new.target` expression inside eval"@)
    } else if !flags.in_method && body.contains_super_property {
        Some("invalid `super` reference inside eval"@)
    } else if !flags.in_derived_constructor && body.contains_super_call {
        Some("invalid `super` call inside eval"@)
    } else if flags.in_class_field_initializer && body.contains_arguments {
        Some("invalid `arguments` reference inside eval"@)
    } else {
        None
    }
}

/// The message of the error raised when the code declares by `var` a name
/// that is a lexical binding already.
pub open spec fn redeclaration_message(name: Seq<char>) -> Seq<char> {
    "variable declaration "@ + name + " in eval function already exists as a lexical variable"@
}

/// The environment stack that an action restores from the stack that the
/// run left.
pub open spec fn restored_stack(action: EnvStackAction, left: Seq<Environment>) -> Seq<Environment> {
    match action {
        EnvStackAction::Truncate(len) => if len <= left.len() {
            left.subrange(0, len as int)
        } else {
            left
        },
        EnvStackAction::Restore(environments) => (if 1 <= left.len() {
            left.subrange(0, 1)
        } else {
            left
        }) + environments@,
    }
}

/// The stack on which the code of an evaluation runs: the stack of the
/// caller for a direct call, the global environment alone for an indirect
/// one.
pub open spec fn installed_stack(stack: Seq<Environment>, direct: bool) -> Seq<Environment> {
    if direct {
        stack
    } else {
        stack.subrange(0, 1)
    }
}

impl Heap {
    /// The flags of an evaluation on the given stack. All are unset for an
    /// indirect call, and for a direct call whose `this` is that of the
    /// global environment. Otherwise the evaluation is in a function; it is
    /// in a method if that function has a `super` binding, in a derived
    /// constructor if the function is one, and in a class field initializer
    /// if the function's code block is one.
    pub open spec fn eval_flags(self, stack: Seq<Environment>, direct: bool) -> EvalFlags {
        let slots = self.environment(
            stack[self.this_environment_index(stack)]->Declarative_0,
        ).slots.unwrap();
        match slots {
            EnvironmentSlots::Function(function_env) => if direct {
                let function = self.function(function_env.function_object);
                EvalFlags {
                    in_function: true,
                    in_method: function_env.spec_has_super_binding(self),
                    in_derived_constructor: function.spec_is_derived_constructor(),
                    in_class_field_initializer: function.kind matches FunctionKind::Ordinary {
                        code,
                        ..
                    } && self.code_block(code).class_field_initializer_name is Some,
                }
            } else {
                EvalFlags {
                    in_function: false,
                    in_method: false,
                    in_derived_constructor: false,
                    in_class_field_initializer: false,
                }
            },
            EnvironmentSlots::Global => EvalFlags {
                in_function: false,
                in_method: false,
                in_derived_constructor: false,
                in_class_field_initializer: false,
            },
        }
    }

    /// Whether a direct evaluation on the given stack can read the function
    /// that it stands in: the function object of the environment that
    /// provides `this` is a function of this heap.
    pub open spec fn eval_function_readable(self, stack: Seq<Environment>) -> bool {
        self.environment(
            stack[self.this_environment_index(stack)]->Declarative_0,
        ).slots matches Some(EnvironmentSlots::Function(function_env)) ==> self.is_function(
            function_env.function_object,
        )
    }

    /// The index of the environment that decides whether a `var`
    /// declaration of one of the names collides with a lexical binding: the
    /// nearest environment that declares one of the names lexically or is
    /// that of a function scope.
    pub open spec fn collision_index(self, stack: Seq<Environment>, names: Set<usize>) -> int {
        last_index_where(
            stack,
            stack.len() as int,
            |e: Environment| self.has_lex_conflict(e, names) || self.is_function_scope(e),
        )
    }

    /// Whether a `var` declaration of one of the names collides with a
    /// lexical binding on the given stack.
    pub open spec fn collides(self, stack: Seq<Environment>, names: Set<usize>) -> bool {
        self.collision_index(stack, names) >= 0 && self.has_lex_conflict(
            stack[self.collision_index(stack, names)],
            names,
        )
    }
}

impl Heap {
    /// Whether the object is the `eval` function of the given realm: a
    /// function of the host that is no constructor, with the given
    /// prototype, the length 1 and a name that reads `eval`.
    pub open spec fn is_eval_function(self, object: JsObject, realm: Realm, prototype: JsObject) -> bool {
        let properties = self.object(object).properties@;
        &&& self.has_object(object)
        &&& self.object(object).prototype == Some(prototype)
        &&& self.object(object).data matches ObjectData::Function(function) && function.realm
            == realm && function.kind == (FunctionKind::Native {
            function: NativeFunction { id: EVAL_FUNCTION },
            constructor: None,
        })
        &&& properties.len() == 2
        &&& property_is(properties[0], length_key(), JsValue::Integer(1), name_attributes())
        &&& properties[1].key@ == PropertyKeyView::String(name_key())
        &&& properties[1].attributes == name_attributes()
        &&& properties[1].value matches JsValue::String(name) && self.has_string(name)
            && self.strings@[name.index as int]@ == eval_name()
    }
}

impl Eval {
    /// Creates the `eval` function of a realm. The heap is well formed
    /// afterwards if it holds the realm; for a realm that is being created
    /// it is so once the realm is there.
    pub fn init(heap: &mut Heap, realm: Realm, function_prototype: JsObject) -> (function: JsObject)
        requires
            old(heap).wf(),
            old(heap).has_object(function_prototype),
        ensures
            function.index == old(heap).objects@.len(),
            final(heap).is_eval_function(function, realm, function_prototype),
            final(heap).objects@.len() == old(heap).objects@.len() + 1,
            final(heap).objects@.drop_last() == old(heap).objects@,
            final(heap).strings@.len() == old(heap).strings@.len() + 1,
            final(heap).strings@.drop_last() == old(heap).strings@,
            final(heap).environments == old(heap).environments,
            final(heap).compile_environments == old(heap).compile_environments,
            final(heap).code_blocks == old(heap).code_blocks,
            final(heap).realms == old(heap).realms,
            final(heap).extends(*old(heap)),
            old(heap).has_realm(realm) ==> final(heap).wf(),
    {
        let mut units: Vec<u16> = Vec::new();
        units.push(101);
        units.push(118);
        units.push(97);
        units.push(108);
        assert(units@ =~= eval_name());
        let name = heap.alloc_string(units);
        let ghost named = *heap;
        let mut properties: Vec<Property> = Vec::new();
        properties.push(
            Property {
                key: length_property_key(),
                value: JsValue::Integer(1),
                attributes: Attributes { writable: false, enumerable: false, configurable: true },
            },
        );
        properties.push(
            Property {
                key: name_property_key(),
                value: JsValue::String(name),
                attributes: Attributes { writable: false, enumerable: false, configurable: true },
            },
        );
        let function = JsObject { index: heap.objects.len() };
        heap.objects.push(
            Object {
                prototype: Some(function_prototype),
                properties,
                data: ObjectData::Function(
                    Function::new(
                        FunctionKind::Native {
                            function: NativeFunction { id: EVAL_FUNCTION },
                            constructor: None,
                        },
                        realm,
                    ),
                ),
            },
        );
        proof {
            assert(heap.objects@.drop_last() =~= old(heap).objects@);
            assert(heap.strings@.drop_last() =~= old(heap).strings@);
            heap.lemma_extends_transitive(named, *old(heap));
            if old(heap).has_realm(realm) {
                lemma_wf_carries(*heap, named);
            }
        }
        function
    }

    /// The `eval` function among the intrinsics of a realm.
    pub fn get(intrinsics: &Intrinsics) -> (function: JsObject)
        ensures
            function == intrinsics.eval,
    {
        intrinsics.eval
    }

    /// `eval ( x )`: an indirect evaluation of the first argument.
    pub fn eval(this: &JsValue, args: &[JsValue], context: &mut Context) -> (step: EvalStep)
        ensures
            *final(context) == *old(context),
            match spec_get_or_undefined(args@, 0) {
                JsValue::String(source) => step == (EvalStep::Parse {
                    source,
                    direct: false,
                    strict: false,
                }),
                value => step == EvalStep::Done(Ok(value)),
            },
    {
        let x = get_or_undefined(args, 0);
        Self::perform_eval(&x, false, false, context)
    }

    /// `PerformEval ( x, strictCaller, direct )`, up to the parse: a value
    /// that is no string is the result; for a string the host is asked to
    /// consent and to parse it. An indirect call is never strict.
    pub fn perform_eval(x: &JsValue, direct: bool, strict: bool, context: &mut Context) -> (step:
        EvalStep)
        requires
            direct || !strict,
        ensures
            *final(context) == *old(context),
            match *x {
                JsValue::String(source) => step == (EvalStep::Parse { source, direct, strict }),
                value => step == EvalStep::Done(Ok(value)),
            },
    {
        match x.as_string() {
            Some(source) => EvalStep::Parse { source, direct, strict },
            None => EvalStep::Done(Ok(*x)),
        }
    }

    /// The flags of an evaluation in the given context.
    pub fn flags(direct: bool, context: &Context) -> (flags: EvalFlags)
        requires
            context.heap.wf(),
            stack_wf(context.vm.environments.stack@, context.heap),
            direct ==> context.heap.eval_function_readable(context.vm.environments.stack@),
        ensures
            flags == context.heap.eval_flags(context.vm.environments.stack@, direct),
    {
        let none = EvalFlags {
            in_function: false,
            in_method: false,
            in_derived_constructor: false,
            in_class_field_initializer: false,
        };
        match context.vm.environments.get_this_environment(&context.heap).as_function_slots() {
            Some(function_env) => {
                if direct {
                    let function = context.heap.function_of(function_env.function_object());
                    proof {
                        assert(context.heap.function_wf(*function));
                    }
                    let in_class_field_initializer = match &function.kind {
                        FunctionKind::Ordinary { code, .. } => context.heap.code_block_of(
                            code,
                        ).class_field_initializer_name.is_some(),
                        _ => false,
                    };
                    EvalFlags {
                        in_function: true,
                        in_method: function_env.has_super_binding(&context.heap),
                        in_derived_constructor: function.is_derived_constructor(),
                        in_class_field_initializer,
                    }
                } else {
                    none
                }
            },
            None => none,
        }
    }

    /// The early error of an evaluation, if it has one.
    pub fn check_early_errors(flags: EvalFlags, body: &ParsedEval) -> (result: Result<
        (),
        JsNativeError,
    >)
        ensures
            match early_error(flags, *body) {
                Some(message) => result is Err && result.unwrap_err().is(
                    JsNativeErrorKind::Syntax,
                    message,
                ) && result.unwrap_err().realm is None,
                None => result is Ok,
            },
    {
        if !flags.in_function && body.contains_new_target {
            return Err(
                JsNativeError::syntax().with_message(
                    String::from_str("invalid `new.target` expression inside eval"),
                ),
            );
        }
        if !flags.in_method && body.contains_super_property {
            return Err(
                JsNativeError::syntax().with_message(
                    String::from_str("invalid `super` reference inside eval"),
                ),
            );
        }
        if !flags.in_derived_constructor && body.contains_super_call {
            return Err(
                JsNativeError::syntax().with_message(
                    String::from_str("invalid `super` call inside eval"),
                ),
            );
        }
        if flags.in_class_field_initializer && body.contains_arguments {
            return Err(
                JsNativeError::syntax().with_message(
                    String::from_str("invalid `arguments` reference inside eval"),
                ),
            );
        }
        Ok(())
    }

    /// Restores the environment stack after an evaluation.
    pub fn restore_environment(context: &mut Context, action: EnvStackAction)
        ensures
            final(context).vm.environments.stack@ == restored_stack(
                action,
                old(context).vm.environments.stack@,
            ),
            final(context).heap == old(context).heap,
            final(context).interner == old(context).interner,
            final(context).realm == old(context).realm,
            final(context).vm.stack == old(context).vm.stack,
            final(context).vm.frames == old(context).vm.frames,
            final(context).vm.active_function == old(context).vm.active_function,
    {
        match action {
            EnvStackAction::Truncate(size) => {
                context.vm.environments.truncate(size);
            },
            EnvStackAction::Restore(envs) => {
                context.vm.environments.truncate(1);
                context.vm.environments.extend(envs);
            },
        }
    }
}

/// Two predicates that agree on the environments of a stack have the same
/// last index on it.
pub proof fn lemma_last_index_same(
    stack: Seq<Environment>,
    end: int,
    p: spec_fn(Environment) -> bool,
    q: spec_fn(Environment) -> bool,
)
    requires
        0 <= end <= stack.len(),
        forall|i: int| 0 <= i < end ==> p(stack[i]) == q(stack[i]),
    ensures
        last_index_where(stack, end, p) == last_index_where(stack, end, q),
    decreases end,
{
    if end > 0 && !p(stack[end - 1]) {
        lemma_last_index_same(stack, end - 1, p, q);
    }
}

/// Poisoning environments changes neither where a `var` declaration
/// collides with a lexical binding nor which scope is that of a function.
pub proof fn lemma_collision_same(h0: Heap, h1: Heap, stack: Seq<Environment>, names: Set<usize>)
    requires
        h1.poison_only(h0),
        stack_wf(stack, h0),
    ensures
        h1.collision_index(stack, names) == h0.collision_index(stack, names),
        forall|i: int|
            0 <= i < stack.len() ==> h1.has_lex_conflict(stack[i], names) == h0.has_lex_conflict(
                stack[i],
                names,
            ),
        forall|i: int|
            0 <= i < stack.len() && stack[i] is Declarative ==> h1.compile_of(
                stack[i]->Declarative_0,
            ) == h0.compile_of(stack[i]->Declarative_0),
        h1.nearest_declarative(stack, stack.len() as int) == h0.nearest_declarative(
            stack,
            stack.len() as int,
        ),
{
    let p = |e: Environment| h1.has_lex_conflict(e, names) || h1.is_function_scope(e);
    let q = |e: Environment| h0.has_lex_conflict(e, names) || h0.is_function_scope(e);
    assert forall|i: int| 0 <= i < stack.len() implies p(stack[i]) == q(stack[i])
        && h1.has_lex_conflict(stack[i], names) == h0.has_lex_conflict(stack[i], names) by {
        match stack[i] {
            Environment::Declarative(env) => {
                assert(h0.has_environment(env));
                assert(h1.environments@[env.index as int].compile
                    == h0.environments@[env.index as int].compile);
                assert(h1.compile_of(env) == h0.compile_of(env));
            },
            Environment::Object(_) => {},
        }
    }
    assert forall|i: int| 0 <= i < stack.len() && stack[i] is Declarative implies h1.compile_of(
        stack[i]->Declarative_0,
    ) == h0.compile_of(stack[i]->Declarative_0) by {
        let env = stack[i]->Declarative_0;
        assert(h0.has_environment(env));
        assert(h1.environments@[env.index as int].compile
            == h0.environments@[env.index as int].compile);
    }
    lemma_last_index_same(stack, stack.len() as int, p, q);
}

impl Context {
    /// What preparing an evaluation does to the context `pre`, and what it
    /// returns.
    /// - With an early error nothing changes, and the result is that
    ///   `SyntaxError`.
    /// - Otherwise the code is strict if the caller or the code says so. A
    ///   direct call that is not strict poisons the environments down to
    ///   the nearest function scope. An indirect call takes everything but
    ///   the global environment off the stack.
    /// - If the code is not strict and declares by `var` a name that is a
    ///   lexical binding on the stack that was installed, the stack is put
    ///   back and the result is a `SyntaxError` that names such a name.
    /// - Otherwise the result is the plan: what restores the stack, and the
    ///   compile-time environment of the nearest declarative environment.
    pub open spec fn eval_prepared(
        pre: Context,
        post: Context,
        body: ParsedEval,
        direct: bool,
        strict: bool,
        result: JsResult<EvalPlan>,
    ) -> bool {
        let stack = pre.vm.environments.stack@;
        let flags = pre.heap.eval_flags(stack, direct);
        let strict_code = strict || body.strict;
        let names = name_set(body.var_declared_names);
        let installed = installed_stack(stack, direct);
        &&& post.interner == pre.interner
        &&& post.realm == pre.realm
        &&& post.vm.stack == pre.vm.stack
        &&& post.vm.frames == pre.vm.frames
        &&& post.vm.active_function == pre.vm.active_function
        &&& match early_error(flags, body) {
            Some(message) => {
                &&& result matches Err(JsError::Native(err)) && err.is(
                    JsNativeErrorKind::Syntax,
                    message,
                ) && err.realm is None
                &&& post.heap == pre.heap
                &&& post.vm.environments.stack@ == stack
            },
            None => {
                &&& if direct && !strict_code {
                    &&& post.heap.poison_only(pre.heap)
                    &&& forall|env: crate::environments::runtime::DeclarativeEnvironmentRef|
                        pre.heap.has_environment(env) ==> (#[trigger] post.heap.environment(
                            env,
                        )).poisoned == (pre.heap.environment(env).poisoned
                            || pre.heap.on_stack_from(
                            stack,
                            pre.heap.nearest_function_scope(stack),
                            env,
                        ))
                } else {
                    post.heap == pre.heap
                }
                &&& if !strict_code && pre.heap.collides(installed, names) {
                    &&& result matches Err(JsError::Native(err)) && err.kind
                        == JsNativeErrorKind::Syntax && err.realm is None && exists|n: usize|
                        names.contains(n) && #[trigger] pre.heap.compile_of(
                            installed[pre.heap.collision_index(installed, names)]->Declarative_0,
                        ).spec_has_lex_binding(n) && err.message@ == redeclaration_message(
                            interner_texts(pre.interner)[n],
                        )
                    &&& post.vm.environments.stack@ == stack
                } else {
                    &&& result matches Ok(plan) && plan.direct == direct && plan.strict
                        == strict_code && plan.compile_environment == pre.heap.environment(
                        installed[pre.heap.nearest_declarative(
                            installed,
                            installed.len() as int,
                        )]->Declarative_0,
                    ).compile && (match plan.action {
                        EnvStackAction::Truncate(len) => direct && len == stack.len(),
                        EnvStackAction::Restore(rest) => !direct && rest@ == stack.subrange(
                            1,
                            stack.len() as int,
                        ),
                    })
                    &&& post.vm.environments.stack@ == installed
                }
            },
        }
    }
}

impl Eval {
    /// Prepares an evaluation with what the parse found: see
    /// [`Context::eval_prepared`]. The interner must hold the names that the
    /// code declares by `var`.
    pub fn prepare(body: &ParsedEval, direct: bool, strict: bool, context: &mut Context) -> (result:
        JsResult<EvalPlan>)
        requires
            direct || !strict,
            old(context).heap.wf(),
            stack_wf(old(context).vm.environments.stack@, old(context).heap),
            direct ==> old(context).heap.eval_function_readable(old(context).vm.environments.stack@),
            forall|n: usize|
                name_set(body.var_declared_names).contains(n) ==> interner_strings(
                    old(context).interner,
                ).contains_key(n),
        ensures
            Context::eval_prepared(*old(context), *final(context), *body, direct, strict, result),
            final(context).heap.extends(old(context).heap),
            final(context).heap.wf(),
            stack_wf(final(context).vm.environments.stack@, final(context).heap),
    {
        let ghost pre = *context;
        let ghost stack = pre.vm.environments.stack@;
        let ghost names = name_set(body.var_declared_names);
        let ghost installed = installed_stack(stack, direct);
        let flags = Self::flags(direct, context);
        match Self::check_early_errors(flags, body) {
            Err(err) => {
                return Err(JsError::Native(err));
            },
            Ok(_) => {},
        }
        let strict = strict || body.strict;
        let action = if direct {
            if !strict {
                context.vm.environments.poison_until_last_function(&mut context.heap);
                proof {
                    context.heap.lemma_stack_wf_extends(pre.heap, stack);
                }
            }
            let environments_len = context.vm.environments.len();
            EnvStackAction::Truncate(environments_len)
        } else {
            let environments = context.vm.environments.pop_to_global();
            EnvStackAction::Restore(environments)
        };
        proof {
            assert(context.vm.environments.stack@ == installed);
            assert(stack_wf(installed, context.heap));
            if direct && !strict {
                lemma_collision_same(pre.heap, context.heap, installed, names);
            }
        }
        if !strict {
            if let Some(name) = context.vm.environments.has_lex_binding_until_function_environment(
                &body.var_declared_names,
                &context.heap,
            ) {
                proof {
                    let h = context.heap;
                    let stop = h.collision_index(installed, names);
                    assert(stop >= 0);
                    assert(h.compile_of(installed[stop]->Declarative_0).spec_has_lex_binding(
                        name.index(),
                    ));
                    assert(pre.heap.collision_index(installed, names) == stop);
                    lemma_last_index_where(
                        installed,
                        installed.len() as int,
                        |e: Environment| h.has_lex_conflict(e, names) || h.is_function_scope(e),
                    );
                    assert(pre.heap.compile_of(installed[stop]->Declarative_0) == h.compile_of(
                        installed[stop]->Declarative_0,
                    ));
                }
                Self::restore_environment(context, action);
                let resolved = resolve_name(&context.interner, name.sym());
                let mut message = String::from_str("variable declaration ");
                match resolved {
                    Some(resolved) => {
                        message.append(resolved.text.as_str());
                    },
                    None => {},
                }
                message.append(" in eval function already exists as a lexical variable");
                proof {
                    assert(context.vm.environments.stack@ =~= stack);
                    assert(pre.heap.compile_of(
                        installed[pre.heap.collision_index(installed, names)]->Declarative_0,
                    ).spec_has_lex_binding(name.index()));
                }
                return Err(JsError::Native(JsNativeError::syntax().with_message(message)));
            }
        }
        let compile_environment = context.vm.environments.current_compile_environment(
            &context.heap,
        );
        proof {
            let nearest = pre.heap.nearest_declarative(installed, installed.len() as int);
            assert(context.heap.nearest_declarative(installed, installed.len() as int) == nearest);
            let env = installed[nearest]->Declarative_0;
            assert(stack_wf(installed, pre.heap));
            lemma_last_index_where(
                installed,
                installed.len() as int,
                |e: Environment| e is Declarative,
            );
            assert(installed[nearest] is Declarative);
            assert(pre.heap.has_environment(env));
            assert(context.heap.environments@[env.index as int].compile
                == pre.heap.environments@[env.index as int].compile);
            if !strict {
                let h = context.heap;
                assert(!h.collides(installed, names));
                assert(h.collision_index(installed, names) == pre.heap.collision_index(
                    installed,
                    names,
                ));
                lemma_last_index_where(
                    installed,
                    installed.len() as int,
                    |e: Environment| h.has_lex_conflict(e, names) || h.is_function_scope(e),
                );
                assert(!pre.heap.collides(installed, names));
            }
        }
        Ok(EvalPlan { action, direct, strict, compile_environment })
    }

    /// Makes room for what the compiler declared: after a direct call that
    /// is not strict, the nearest function environment grows to the number
    /// of bindings that its compile-time environment has by now. Nothing
    /// else changes; in particular no environment is added.
    pub fn compiled(plan: &EvalPlan, context: &mut Context)
        requires
            old(context).heap.wf(),
            stack_wf(old(context).vm.environments.stack@, old(context).heap),
        ensures
            final(context).vm == old(context).vm,
            final(context).interner == old(context).interner,
            final(context).realm == old(context).realm,
            final(context).heap.extends(old(context).heap),
            final(context).heap.wf(),
            final(context).heap.environments@.len() == old(context).heap.environments@.len(),
            !(plan.direct && !plan.strict) || old(context).heap.nearest_function_environment(
                old(context).vm.environments.stack@,
            ) < 0 ==> final(context).heap == old(context).heap,
            plan.direct && !plan.strict && old(context).heap.nearest_function_environment(
                old(context).vm.environments.stack@,
            ) >= 0 ==> {
                let env = old(context).vm.environments.stack@[old(
                    context,
                ).heap.nearest_function_environment(
                    old(context).vm.environments.stack@,
                )]->Declarative_0;
                &&& final(context).heap.changed_environment(old(context).heap, env)
                &&& final(context).heap.environment(env).poisoned == old(context).heap.environment(
                    env,
                ).poisoned
                &&& final(context).heap.environment(env).bindings@ == crate::heap::grown(
                    old(context).heap.environment(env).bindings@,
                    old(context).heap.compile_of(env).bindings@.len() as int,
                )
            },
    {
        if plan.direct && !plan.strict {
            context.vm.environments.extend_outer_function_environment(&mut context.heap);
        }
    }

    /// Ends an evaluation: restores the environment stack and returns the
    /// outcome of the run, be it a value or an error.
    pub fn finish(plan: EvalPlan, outcome: JsResult<JsValue>, context: &mut Context) -> (result:
        JsResult<JsValue>)
        ensures
            result == outcome,
            final(context).vm.environments.stack@ == restored_stack(
                plan.action,
                old(context).vm.environments.stack@,
            ),
            final(context).heap == old(context).heap,
            final(context).interner == old(context).interner,
            final(context).realm == old(context).realm,
            final(context).vm.stack == old(context).vm.stack,
            final(context).vm.frames == old(context).vm.frames,
            final(context).vm.active_function == old(context).vm.active_function,
    {
        Self::restore_environment(context, plan.action);
        outcome
    }
}

/// Eval restoration. Whatever the outcome of an evaluation, the environment
/// stack and the operand stack are afterwards what they were before it. What
/// [`Eval::compiled`] adds in between are bindings of the enclosing function
/// environment, never environments.
///
/// `before` is the context before the preparation and `prepared` the
/// context after it; `left` is the context that the run left, and `after`
/// the context at the end of the evaluation. The run may leave more
/// environments on the stack than it found, but it must not remove or
/// replace what it found: all of it after a direct call, the global
/// environment after an indirect one. It must leave the operand stack as it
/// found it.
pub proof fn lemma_eval_restores(
    before: Context,
    prepared: Context,
    body: ParsedEval,
    direct: bool,
    strict: bool,
    result: JsResult<EvalPlan>,
    left: Context,
    after: Context,
)
    requires
        before.vm.environments.stack@.len() >= 1,
        Context::eval_prepared(before, prepared, body, direct, strict, result),
        result matches Ok(plan) ==> {
            &&& direct ==> prepared.vm.environments.stack@.is_prefix_of(
                left.vm.environments.stack@,
            )
            &&& !direct ==> left.vm.environments.stack@.len() >= 1
                && left.vm.environments.stack@[0] == prepared.vm.environments.stack@[0]
            &&& left.vm.stack@ == prepared.vm.stack@
            &&& after.vm.environments.stack@ == restored_stack(
                plan.action,
                left.vm.environments.stack@,
            )
            &&& after.vm.stack@ == left.vm.stack@
        },
        result is Err ==> after == prepared,
    ensures
        after.vm.environments.stack@ == before.vm.environments.stack@,
        after.vm.stack@ == before.vm.stack@,
{
    if let Ok(plan) = result {
        assert(after.vm.environments.stack@ =~= before.vm.environments.stack@);
    }
}

} // verus!
