use boa_engine::context::Context;
use boa_engine::environments::compile::CompileTimeEnvironment;
use boa_engine::environments::compile::CompileTimeEnvironmentRef;
use boa_engine::environments::runtime::BindingLocator;
use boa_engine::environments::runtime::DeclarativeEnvironmentRef;
use boa_engine::environments::runtime::DeclarativeEnvironmentStack;
use boa_engine::environments::runtime::Environment;
use boa_engine::environments::runtime::EnvironmentSlots;
use boa_engine::environments::runtime::FunctionSlots;
use boa_engine::environments::runtime::ThisBindingStatus;
use boa_engine::error::JsNativeErrorKind;
use boa_engine::function::ConstructorKind;
use boa_engine::function::Function;
use boa_engine::function::FunctionKind;
use boa_engine::function::NativeFunction;
use boa_engine::interner::Identifier;
use boa_engine::object::Object;
use boa_engine::object::ObjectData;
use boa_engine::value::JsObject;
use boa_engine::value::JsValue;
use boa_engine::vm::code_block::CodeBlock;
use rustc_hash::FxHashSet;
use thin_vec::ThinVec;

fn name(context: &mut Context, text: &str) -> Identifier {
    Identifier::new(context.interner.get_or_intern(text))
}

fn compile_env(context: &mut Context, index: usize, function: bool) -> CompileTimeEnvironmentRef {
    let outer = CompileTimeEnvironmentRef { index: 0 };
    context
        .heap
        .alloc_compile_environment(CompileTimeEnvironment::new(outer, index, function))
}

fn declarative(context: &Context, index: usize) -> DeclarativeEnvironmentRef {
    match context.vm.environments.stack[index] {
        Environment::Declarative(env) => env,
        Environment::Object(_) => panic!("not a declarative environment"),
    }
}

fn plain_function(context: &mut Context, home_object: Option<JsObject>) -> JsObject {
    let main = context.interner.get_or_intern("f");
    let code = context.heap.alloc_code_block(CodeBlock::new(main, 0, false));
    let environments = context.vm.environments.duplicate();
    let prototype = context.heap.realm_of(&context.realm).intrinsics.function_prototype;
    context.heap.alloc_object(Object {
        prototype: Some(prototype),
        properties: Vec::new(),
        data: ObjectData::Function(Function::new(
            FunctionKind::Ordinary {
                code,
                environments,
                constructor_kind: ConstructorKind::Base,
                home_object,
                fields: ThinVec::new(),
                private_methods: ThinVec::new(),
                class_object: None,
            },
            context.realm,
        )),
    })
}

#[test]
fn new_context_has_global_environment() {
    let context = Context::new();
    assert_eq!(context.vm.environments.len(), 1);
    let global = declarative(&context, 0);
    let env = context.heap.environment_of(&global);
    assert_eq!(env.slots, Some(EnvironmentSlots::Global));
    assert!(!env.poisoned);
    assert!(!env.with);
    assert_eq!(env.bindings.len(), 0);
    assert_eq!(context.heap.realm_of(&context.realm).environment, global);
}

#[test]
fn stack_new_holds_only_the_global() {
    let stack = DeclarativeEnvironmentStack::new(DeclarativeEnvironmentRef { index: 7 });
    assert_eq!(stack.len(), 1);
    assert_eq!(
        stack.current(),
        Environment::Declarative(DeclarativeEnvironmentRef { index: 7 })
    );
}

#[test]
fn push_declarative_returns_index_and_starts_uninitialized() {
    let mut context = Context::new();
    let c = compile_env(&mut context, 1, false);
    let index = context.vm.environments.push_declarative(3, c, &mut context.heap);
    assert_eq!(index, 1);
    assert_eq!(context.vm.environments.len(), 2);
    let env = context.heap.environment_of(&declarative(&context, 1));
    assert_eq!(env.bindings, vec![None, None, None]);
    assert_eq!(env.compile, c);
    assert!(!env.poisoned);
    assert!(!env.with);
    assert_eq!(env.slots, None);
}

#[test]
fn push_declarative_inherits_with_from_object_parent() {
    let mut context = Context::new();
    let object = context.heap.alloc_ordinary(None);
    let index = context.vm.environments.push_object(object);
    assert_eq!(index, 1);
    let c = compile_env(&mut context, 2, false);
    context.vm.environments.push_declarative(0, c, &mut context.heap);
    assert!(context.heap.environment_of(&declarative(&context, 2)).with);
    // The flag is passed on to an environment above a declarative one.
    let c2 = compile_env(&mut context, 3, false);
    context.vm.environments.push_declarative(0, c2, &mut context.heap);
    assert!(context.heap.environment_of(&declarative(&context, 3)).with);
}

#[test]
fn push_declarative_inherits_poison() {
    let mut context = Context::new();
    let f = compile_env(&mut context, 1, true);
    context.vm.environments.push_declarative(0, f, &mut context.heap);
    context.vm.environments.poison_until_last_function(&mut context.heap);
    let c = compile_env(&mut context, 2, false);
    context.vm.environments.push_declarative(0, c, &mut context.heap);
    assert!(context.heap.environment_of(&declarative(&context, 2)).poisoned);
    assert!(!context.heap.environment_of(&declarative(&context, 0)).poisoned);
}

#[test]
fn push_function_sets_this_binding_status() {
    let mut context = Context::new();
    let function = plain_function(&mut context, None);
    let c = compile_env(&mut context, 1, true);
    context.vm.environments.push_function(
        1,
        c,
        Some(JsValue::Integer(5)),
        function,
        None,
        false,
        &mut context.heap,
    );
    let expected = FunctionSlots {
        this: JsValue::Integer(5),
        this_binding_status: ThisBindingStatus::Initialized,
        function_object: function,
        new_target: None,
    };
    assert_eq!(
        context.heap.environment_of(&declarative(&context, 1)).slots,
        Some(EnvironmentSlots::Function(expected))
    );

    context
        .vm
        .environments
        .push_function(0, c, None, function, Some(function), false, &mut context.heap);
    let slots = context.heap.environment_of(&declarative(&context, 2)).slots;
    assert_eq!(
        slots,
        Some(EnvironmentSlots::Function(FunctionSlots {
            this: JsValue::Null,
            this_binding_status: ThisBindingStatus::Uninitialized,
            function_object: function,
            new_target: Some(function),
        }))
    );

    context.vm.environments.push_function(
        0,
        c,
        Some(JsValue::Integer(1)),
        function,
        None,
        true,
        &mut context.heap,
    );
    match context.heap.environment_of(&declarative(&context, 3)).slots {
        Some(EnvironmentSlots::Function(slots)) => {
            assert_eq!(slots.this_binding_status, ThisBindingStatus::Lexical)
        }
        _ => panic!("function slots expected"),
    }
}

#[test]
fn push_function_initializes_var_bindings() {
    let mut context = Context::new();
    let function = plain_function(&mut context, None);
    let c = compile_env(&mut context, 1, true);
    let a = name(&mut context, "a");
    let b = name(&mut context, "b");
    let d = name(&mut context, "d");
    assert!(context.heap.compile_environments[c.index].create_binding(a, true, false));
    assert!(context.heap.compile_environments[c.index].create_binding(b, false, true));
    assert!(context.heap.compile_environments[c.index].create_binding(d, false, false));
    assert!(!context.heap.compile_environments[c.index].create_binding(b, false, true));
    assert_eq!(
        context.heap.compile_environment_of(&c).var_binding_indices(),
        vec![1]
    );
    context
        .vm
        .environments
        .push_function(4, c, None, function, None, false, &mut context.heap);
    assert_eq!(
        context.heap.environment_of(&declarative(&context, 1)).bindings,
        vec![None, Some(JsValue::Undefined), None, None]
    );
}

#[test]
fn push_function_inherit_copies_slots() {
    let mut context = Context::new();
    let function = plain_function(&mut context, None);
    let c = compile_env(&mut context, 1, true);
    context.vm.environments.push_function(
        0,
        c,
        Some(JsValue::Boolean(true)),
        function,
        None,
        false,
        &mut context.heap,
    );
    let block = compile_env(&mut context, 2, false);
    context.vm.environments.push_declarative(0, block, &mut context.heap);
    let arrow = compile_env(&mut context, 3, true);
    context
        .vm
        .environments
        .push_function_inherit(2, arrow, &mut context.heap);
    let outer = context.heap.environment_of(&declarative(&context, 1)).slots;
    let inner = context.heap.environment_of(&declarative(&context, 3));
    assert_eq!(inner.slots, outer);
    assert_eq!(inner.bindings, vec![None, None]);
    assert_eq!(inner.compile, arrow);
}

#[test]
fn pop_truncate_extend_and_pop_to_global() {
    let mut context = Context::new();
    let c = compile_env(&mut context, 1, false);
    context.vm.environments.push_declarative(0, c, &mut context.heap);
    context.vm.environments.push_declarative(0, c, &mut context.heap);
    context.vm.environments.push_declarative(0, c, &mut context.heap);
    let before = context.vm.environments.stack.clone();
    let top = context.vm.environments.pop();
    assert_eq!(top, before[3]);
    assert_eq!(context.vm.environments.len(), 3);
    context.vm.environments.truncate(5);
    assert_eq!(context.vm.environments.len(), 3);
    context.vm.environments.truncate(2);
    assert_eq!(context.vm.environments.stack, before[..2].to_vec());
    let rest = context.vm.environments.pop_to_global();
    assert_eq!(rest, before[1..2].to_vec());
    assert_eq!(context.vm.environments.stack, before[..1].to_vec());
    context.vm.environments.extend(before[1..].to_vec());
    assert_eq!(context.vm.environments.stack, before);
}

#[test]
fn replace_global_changes_index_zero() {
    let mut context = Context::new();
    let realm = context.create_realm();
    let other = context.heap.realm_of(&realm).environment;
    context.vm.environments.replace_global(other);
    assert_eq!(
        context.vm.environments.stack[0],
        Environment::Declarative(other)
    );
    assert_eq!(context.vm.environments.len(), 1);
}

#[test]
fn current_and_current_compile_environment() {
    let mut context = Context::new();
    let c = compile_env(&mut context, 1, false);
    context.vm.environments.push_declarative(0, c, &mut context.heap);
    let object = context.heap.alloc_ordinary(None);
    context.vm.environments.push_object(object);
    assert_eq!(context.vm.environments.current(), Environment::Object(object));
    assert_eq!(
        context
            .vm
            .environments
            .current_compile_environment(&context.heap),
        c
    );
}

#[test]
fn poison_until_last_function_stops_at_function_scope() {
    let mut context = Context::new();
    let outer = compile_env(&mut context, 1, true);
    context.vm.environments.push_declarative(0, outer, &mut context.heap);
    let function = compile_env(&mut context, 2, true);
    context.vm.environments.push_declarative(0, function, &mut context.heap);
    let object = context.heap.alloc_ordinary(None);
    context.vm.environments.push_object(object);
    let block = compile_env(&mut context, 4, false);
    context.vm.environments.push_declarative(0, block, &mut context.heap);
    let snapshot = context.vm.environments.stack.clone();
    context.vm.environments.poison_until_last_function(&mut context.heap);
    assert_eq!(context.vm.environments.stack, snapshot);
    assert!(context.heap.environment_of(&declarative(&context, 4)).poisoned);
    assert!(context.heap.environment_of(&declarative(&context, 2)).poisoned);
    assert!(!context.heap.environment_of(&declarative(&context, 1)).poisoned);
    assert!(!context.heap.environment_of(&declarative(&context, 0)).poisoned);
    // Once set, the flag stays, also when the environment is off the stack.
    let block_env = declarative(&context, 4);
    let function_env = declarative(&context, 2);
    context.vm.environments.pop();
    context.vm.environments.poison_until_last_function(&mut context.heap);
    assert!(context.heap.environment_of(&block_env).poisoned);
    assert!(context.heap.environment_of(&function_env).poisoned);
}

#[test]
fn extend_outer_function_environment_grows_nearest_function_environment() {
    let mut context = Context::new();
    let function = plain_function(&mut context, None);
    let c = compile_env(&mut context, 1, true);
    context.vm.environments.push_function(
        1,
        c,
        Some(JsValue::Undefined),
        function,
        None,
        false,
        &mut context.heap,
    );
    context
        .vm
        .environments
        .put_declarative_value(1, 0, JsValue::Integer(9), &mut context.heap);
    let block = compile_env(&mut context, 2, false);
    context.vm.environments.push_declarative(1, block, &mut context.heap);
    let x = name(&mut context, "x");
    let y = name(&mut context, "y");
    let z = name(&mut context, "z");
    context.heap.compile_environments[c.index].create_binding(x, false, false);
    context.heap.compile_environments[c.index].create_binding(y, false, true);
    context.heap.compile_environments[c.index].create_binding(z, false, true);
    let environments = context.heap.environments.len();
    context
        .vm
        .environments
        .extend_outer_function_environment(&mut context.heap);
    assert_eq!(context.heap.environments.len(), environments);
    assert_eq!(context.vm.environments.len(), 3);
    assert_eq!(
        context.heap.environment_of(&declarative(&context, 1)).bindings,
        vec![Some(JsValue::Integer(9)), None, None]
    );
    assert_eq!(
        context.heap.environment_of(&declarative(&context, 2)).bindings,
        vec![None]
    );
    // An environment that is long enough is left alone.
    context
        .vm
        .environments
        .extend_outer_function_environment(&mut context.heap);
    assert_eq!(
        context.heap.environment_of(&declarative(&context, 1)).bindings.len(),
        3
    );
}

#[test]
fn has_lex_binding_until_function_environment_finds_collision() {
    let mut context = Context::new();
    let function = compile_env(&mut context, 1, true);
    context.vm.environments.push_declarative(1, function, &mut context.heap);
    let block = compile_env(&mut context, 2, false);
    context.vm.environments.push_declarative(1, block, &mut context.heap);
    let x = name(&mut context, "x");
    let y = name(&mut context, "y");
    let z = name(&mut context, "z");
    context.heap.compile_environments[function.index].create_binding(y, true, false);
    context.heap.compile_environments[block.index].create_binding(x, false, true);
    // The global scope lies beyond the function scope and is not asked.
    context.heap.compile_environments[0].create_binding(z, true, false);

    let mut names = FxHashSet::default();
    names.insert(x);
    assert_eq!(
        context
            .vm
            .environments
            .has_lex_binding_until_function_environment(&names, &context.heap),
        None
    );
    names.insert(z);
    assert_eq!(
        context
            .vm
            .environments
            .has_lex_binding_until_function_environment(&names, &context.heap),
        None
    );
    names.insert(y);
    assert_eq!(
        context
            .vm
            .environments
            .has_lex_binding_until_function_environment(&names, &context.heap),
        Some(y)
    );
    let empty = FxHashSet::default();
    assert_eq!(
        context
            .vm
            .environments
            .has_lex_binding_until_function_environment(&empty, &context.heap),
        None
    );
}

#[test]
fn get_this_environment_skips_lexical_function_environments() {
    let mut context = Context::new();
    assert_eq!(
        *context.vm.environments.get_this_environment(&context.heap),
        EnvironmentSlots::Global
    );
    let function = plain_function(&mut context, None);
    let c = compile_env(&mut context, 1, true);
    context.vm.environments.push_function(
        0,
        c,
        Some(JsValue::Integer(1)),
        function,
        None,
        false,
        &mut context.heap,
    );
    context.vm.environments.push_function(
        0,
        c,
        Some(JsValue::Integer(2)),
        function,
        None,
        true,
        &mut context.heap,
    );
    context.vm.environments.push_declarative(0, c, &mut context.heap);
    match context.vm.environments.get_this_environment(&context.heap) {
        EnvironmentSlots::Function(slots) => assert_eq!(slots.this, JsValue::Integer(1)),
        EnvironmentSlots::Global => panic!("function environment expected"),
    }
}

#[test]
fn put_declarative_value_overwrites() {
    let mut context = Context::new();
    let c = compile_env(&mut context, 1, false);
    context.vm.environments.push_declarative(2, c, &mut context.heap);
    context
        .vm
        .environments
        .put_declarative_value(1, 1, JsValue::Integer(1), &mut context.heap);
    context
        .vm
        .environments
        .put_declarative_value(1, 1, JsValue::Integer(2), &mut context.heap);
    assert_eq!(
        context.heap.environment_of(&declarative(&context, 1)).bindings,
        vec![None, Some(JsValue::Integer(2))]
    );
}

#[test]
fn put_value_if_uninitialized_keeps_present_value() {
    let mut context = Context::new();
    let c = compile_env(&mut context, 1, false);
    context.vm.environments.push_declarative(2, c, &mut context.heap);
    context
        .vm
        .environments
        .put_value_if_uninitialized(1, 0, JsValue::Integer(1), &mut context.heap);
    context
        .vm
        .environments
        .put_value_if_uninitialized(1, 0, JsValue::Integer(2), &mut context.heap);
    // A present `undefined` is a value too.
    context
        .vm
        .environments
        .put_declarative_value(1, 1, JsValue::Undefined, &mut context.heap);
    context
        .vm
        .environments
        .put_value_if_uninitialized(1, 1, JsValue::Integer(3), &mut context.heap);
    assert_eq!(
        context.heap.environment_of(&declarative(&context, 1)).bindings,
        vec![Some(JsValue::Integer(1)), Some(JsValue::Undefined)]
    );
}

#[test]
fn declarative_environment_get_and_set() {
    let mut context = Context::new();
    let c = compile_env(&mut context, 1, false);
    context.vm.environments.push_declarative(1, c, &mut context.heap);
    context
        .vm
        .environments
        .put_declarative_value(1, 0, JsValue::Integer(4), &mut context.heap);
    let env = declarative(&context, 1);
    assert_eq!(context.heap.environment_of(&env).get(0), JsValue::Integer(4));
    context.heap.environments[env.index].set(0, JsValue::Boolean(false));
    assert_eq!(
        context.heap.environment_of(&env).get(0),
        JsValue::Boolean(false)
    );
    assert_eq!(context.heap.environment_of(&env).compile_env(), c);
    assert_eq!(context.heap.environment_of(&env).bindings().len(), 1);
    assert!(context.heap.environment_of(&env).slots().is_none());
}

#[test]
fn environment_as_declarative() {
    let env = Environment::Declarative(DeclarativeEnvironmentRef { index: 3 });
    assert_eq!(env.as_declarative(), Some(DeclarativeEnvironmentRef { index: 3 }));
    assert_eq!(env.declarative_expect(), DeclarativeEnvironmentRef { index: 3 });
    assert_eq!(Environment::Object(JsObject { index: 1 }).as_declarative(), None);
}

#[test]
fn function_slots_bind_this_value_once() {
    let mut slots = FunctionSlots {
        this: JsValue::Null,
        this_binding_status: ThisBindingStatus::Uninitialized,
        function_object: JsObject { index: 0 },
        new_target: Some(JsObject { index: 2 }),
    };
    assert_eq!(*slots.function_object(), JsObject { index: 0 });
    assert_eq!(slots.new_target(), Some(&JsObject { index: 2 }));
    assert!(slots.has_this_binding());
    let err = slots.get_this_binding().unwrap_err();
    assert_eq!(err.kind, JsNativeErrorKind::Reference);
    assert_eq!(
        err.message,
        "Must call super constructor in derived class before accessing 'this' or returning from derived constructor"
    );
    assert!(slots.bind_this_value(&JsObject { index: 5 }));
    assert_eq!(slots.this_binding_status, ThisBindingStatus::Initialized);
    assert_eq!(
        *slots.get_this_binding().unwrap(),
        JsValue::Object(JsObject { index: 5 })
    );
    assert!(!slots.bind_this_value(&JsObject { index: 6 }));
    assert_eq!(slots.this, JsValue::Object(JsObject { index: 5 }));
}

#[test]
fn function_slots_as_function_slots() {
    let slots = FunctionSlots {
        this: JsValue::Null,
        this_binding_status: ThisBindingStatus::Lexical,
        function_object: JsObject { index: 0 },
        new_target: None,
    };
    assert!(!slots.has_this_binding());
    assert_eq!(
        EnvironmentSlots::Function(slots).as_function_slots(),
        Some(&slots)
    );
    assert_eq!(EnvironmentSlots::Global.as_function_slots(), None);
}

#[test]
fn has_super_binding_needs_home_object_and_own_this() {
    let mut context = Context::new();
    let home = context.heap.alloc_ordinary(None);
    let method = plain_function(&mut context, Some(home));
    let function = plain_function(&mut context, None);
    let mut slots = FunctionSlots {
        this: JsValue::Undefined,
        this_binding_status: ThisBindingStatus::Initialized,
        function_object: method,
        new_target: None,
    };
    assert!(slots.has_super_binding(&context.heap));
    slots.this_binding_status = ThisBindingStatus::Lexical;
    assert!(!slots.has_super_binding(&context.heap));
    slots.this_binding_status = ThisBindingStatus::Initialized;
    slots.function_object = function;
    assert!(!slots.has_super_binding(&context.heap));
    let native = context.heap.alloc_object(Object {
        prototype: None,
        properties: Vec::new(),
        data: ObjectData::Function(Function::new(
            FunctionKind::Native {
                function: NativeFunction { id: 1 },
                constructor: None,
            },
            context.realm,
        )),
    });
    slots.function_object = native;
    assert!(!slots.has_super_binding(&context.heap));
}

#[test]
fn binding_locator_constructors() {
    let mut context = Context::new();
    let x = name(&mut context, "x");
    let declarative = BindingLocator::declarative(x, 2, 3);
    assert_eq!(declarative.name(), x);
    assert_eq!(declarative.environment_index(), 2);
    assert_eq!(declarative.binding_index(), 3);
    assert!(!declarative.is_global());
    assert!(!declarative.is_silent());
    assert!(!declarative.mutate_immutable);

    let global = BindingLocator::global(x);
    assert!(global.is_global());
    assert_eq!((global.environment_index(), global.binding_index()), (0, 0));
    assert!(!global.is_silent() && !global.mutate_immutable);

    let silent = BindingLocator::silent(x);
    assert!(silent.is_silent());
    assert!(!silent.is_global() && !silent.mutate_immutable);

    let immutable = BindingLocator::mutate_immutable(x);
    assert!(immutable.mutate_immutable);
    assert!(!immutable.is_global() && !immutable.is_silent());
}

#[test]
fn throw_mutate_immutable_names_the_binding() {
    let mut context = Context::new();
    let x = name(&mut context, "counter");
    assert!(BindingLocator::declarative(x, 0, 0)
        .throw_mutate_immutable(&context)
        .is_ok());
    let err = BindingLocator::mutate_immutable(x)
        .throw_mutate_immutable(&context)
        .unwrap_err();
    assert_eq!(err.kind, JsNativeErrorKind::Type);
    assert_eq!(err.message, "cannot mutate an immutable binding 'counter'");
}

#[test]
fn compile_environment_queries() {
    let mut context = Context::new();
    let x = name(&mut context, "x");
    let y = name(&mut context, "y");
    let z = name(&mut context, "z");
    let mut env = CompileTimeEnvironment::new(CompileTimeEnvironmentRef { index: 0 }, 4, true);
    assert_eq!(env.num_bindings(), 0);
    assert!(env.is_function());
    assert_eq!(env.environment_index(), 4);
    assert!(env.create_binding(x, true, false));
    assert!(env.create_binding(y, false, true));
    assert_eq!(env.num_bindings(), 2);
    assert!(env.has_binding(x));
    assert!(env.has_lex_binding(x));
    assert!(env.has_binding(y));
    assert!(!env.has_lex_binding(y));
    assert!(!env.has_binding(z));
    assert!(!env.has_lex_binding(z));
    assert_eq!(env.get_binding(y), Some(BindingLocator::declarative(y, 4, 1)));
    assert_eq!(env.get_binding(z), None);
    let global = CompileTimeEnvironment::new_global();
    assert!(global.is_function());
    assert_eq!(global.environment_index(), 0);
    assert_eq!(global.num_bindings(), 0);
}
