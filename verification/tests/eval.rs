use boa_engine::builtins::eval::EnvStackAction;
use boa_engine::builtins::eval::Eval;
use boa_engine::builtins::eval::EvalFlags;
use boa_engine::builtins::eval::EvalPlan;
use boa_engine::builtins::eval::EvalStep;
use boa_engine::builtins::eval::EVAL_FUNCTION;
use boa_engine::builtins::eval::ParsedEval;
use boa_engine::context::Context;
use boa_engine::environments::compile::CompileTimeEnvironment;
use boa_engine::environments::compile::CompileTimeEnvironmentRef;
use boa_engine::environments::runtime::BindingLocator;
use boa_engine::environments::runtime::DeclarativeEnvironmentRef;
use boa_engine::environments::runtime::Environment;
use boa_engine::environments::runtime::EnvironmentSlots;
use boa_engine::error::JsError;
use boa_engine::error::JsNativeErrorKind;
use boa_engine::function::ConstructorKind;
use boa_engine::function::Function;
use boa_engine::function::FunctionKind;
use boa_engine::function::NativeFunction;
use boa_engine::interner::Identifier;
use boa_engine::object::Object;
use boa_engine::object::ObjectData;
use boa_engine::object::PropertyKey;
use boa_engine::value::JsObject;
use boa_engine::value::JsValue;
use boa_engine::vm::code_block::CodeBlock;
use boa_engine::vm::call::CallStep;
use boa_engine::vm::construct::ConstructStep;
use boa_engine::vm::function_object::create_function_object_fast;
use rustc_hash::FxHashSet;
use thin_vec::ThinVec;

fn name(context: &mut Context, text: &str) -> Identifier {
    Identifier::new(context.interner.get_or_intern(text))
}

fn compile_env(context: &mut Context, index: usize, function: bool) -> CompileTimeEnvironmentRef {
    let outer = CompileTimeEnvironmentRef { index: 0 };
    context
        .heap
        .alloc_compile_environment(CompileTimeEnvironment::new(outer, index, function))
}

fn declarative(context: &Context, index: usize) -> DeclarativeEnvironmentRef {
    match context.vm.environments.stack[index] {
        Environment::Declarative(env) => env,
        Environment::Object(_) => panic!("not a declarative environment"),
    }
}

fn body(vars: &[Identifier]) -> ParsedEval {
    ParsedEval {
        strict: false,
        contains_new_target: false,
        contains_super_property: false,
        contains_super_call: false,
        contains_arguments: false,
        var_declared_names: vars.iter().copied().collect::<FxHashSet<_>>(),
    }
}

fn function_object(
    context: &mut Context,
    kind: ConstructorKind,
    home_object: Option<JsObject>,
    initializer: bool,
) -> JsObject {
    let f = context.interner.get_or_intern("f");
    let mut code = CodeBlock::new(f, 0, false);
    if initializer {
        code.class_field_initializer_name = Some(f);
    }
    let code = context.heap.alloc_code_block(code);
    let environments = context.vm.environments.duplicate();
    context.heap.alloc_object(Object {
        prototype: None,
        properties: Vec::new(),
        data: ObjectData::Function(Function::new(
            FunctionKind::Ordinary {
                code,
                environments,
                constructor_kind: kind,
                home_object,
                fields: ThinVec::new(),
                private_methods: ThinVec::new(),
                class_object: None,
            },
            context.realm,
        )),
    })
}

/// Pushes the environment of a running function and returns its scope.
fn enter(context: &mut Context, function: JsObject) -> CompileTimeEnvironmentRef {
    let scope = compile_env(context, context.vm.environments.len(), true);
    context.vm.environments.push_function(
        1,
        scope,
        Some(JsValue::Undefined),
        function,
        None,
        false,
        &mut context.heap,
    );
    scope
}

fn syntax_error(result: Result<EvalPlan, JsError>) -> String {
    match result {
        Err(JsError::Native(err)) => {
            assert_eq!(err.kind, JsNativeErrorKind::Syntax);
            err.message
        }
        other => panic!("syntax error expected, got {other:?}"),
    }
}

#[test]
fn eval_of_a_value_that_is_no_string_returns_it() {
    let mut context = Context::new();
    for value in [JsValue::Integer(4), JsValue::Undefined, JsValue::Object(JsObject { index: 0 })] {
        match Eval::perform_eval(&value, true, false, &mut context) {
            EvalStep::Done(Ok(result)) => assert_eq!(result, value),
            other => panic!("value expected, got {other:?}"),
        }
        match Eval::eval(&JsValue::Undefined, &[value, JsValue::Null], &mut context) {
            EvalStep::Done(Ok(result)) => assert_eq!(result, value),
            other => panic!("value expected, got {other:?}"),
        }
    }
    assert!(matches!(
        Eval::eval(&JsValue::Undefined, &[], &mut context),
        EvalStep::Done(Ok(JsValue::Undefined))
    ));
}

#[test]
fn eval_of_a_string_asks_for_the_parse() {
    let mut context = Context::new();
    let source = context.heap.alloc_string("1 + 1".encode_utf16().collect());
    match Eval::perform_eval(&JsValue::String(source), true, true, &mut context) {
        EvalStep::Parse { source: asked, direct, strict } => {
            assert_eq!(asked, source);
            assert!(direct && strict);
        }
        other => panic!("parse expected, got {other:?}"),
    }
    // The global function is an indirect, sloppy evaluation.
    match Eval::eval(&JsValue::Null, &[JsValue::String(source)], &mut context) {
        EvalStep::Parse { source: asked, direct, strict } => {
            assert_eq!(asked, source);
            assert!(!direct && !strict);
        }
        other => panic!("parse expected, got {other:?}"),
    }
}

#[test]
fn eval_at_global_declares_a_global_variable() {
    // eval("var x = 1; x")
    let mut context = Context::new();
    let x = name(&mut context, "x");
    let source = context.heap.alloc_string("var x = 1; x".encode_utf16().collect());
    let step = Eval::eval(&JsValue::Undefined, &[JsValue::String(source)], &mut context);
    let (direct, strict) = match step {
        EvalStep::Parse { direct, strict, .. } => (direct, strict),
        other => panic!("parse expected, got {other:?}"),
    };
    let parsed = body(&[x]);
    let before = context.vm.environments.stack.clone();
    let plan = Eval::prepare(&parsed, direct, strict, &mut context).unwrap();
    assert!(!plan.strict && !plan.direct);
    assert_eq!(plan.compile_environment, CompileTimeEnvironmentRef { index: 0 });
    Eval::compiled(&plan, &mut context);
    // The code assigns the global variable and yields its value.
    let locator = BindingLocator::global(x);
    context.set_binding(locator, JsValue::Integer(1), false).unwrap();
    let outcome = context.read_binding(locator);
    let result = Eval::finish(plan, outcome, &mut context);
    assert_eq!(result.unwrap(), JsValue::Integer(1));
    assert_eq!(context.vm.environments.stack, before);
    assert_eq!(context.get_binding(locator).unwrap(), Some(JsValue::Integer(1)));
}

#[test]
fn var_over_let_in_direct_eval_is_a_syntax_error() {
    // (function () { let y = 2; return eval("var y = 3; y"); })()
    let mut context = Context::new();
    let y = name(&mut context, "y");
    let function = function_object(&mut context, ConstructorKind::Base, None, false);
    let scope = enter(&mut context, function);
    context.heap.compile_environments[scope.index].create_binding(y, true, false);
    context
        .vm
        .environments
        .put_declarative_value(1, 0, JsValue::Integer(2), &mut context.heap);
    let before = context.vm.environments.stack.clone();
    let parsed = body(&[y]);
    let message = syntax_error(Eval::prepare(&parsed, true, false, &mut context));
    assert_eq!(
        message,
        "variable declaration y in eval function already exists as a lexical variable"
    );
    assert!(message.contains('y'));
    assert_eq!(context.vm.environments.stack, before);
    assert_eq!(
        context.get_binding(BindingLocator::declarative(y, 1, 0)).unwrap(),
        Some(JsValue::Integer(2))
    );
}

#[test]
fn strict_eval_may_redeclare_a_lexical_name() {
    let mut context = Context::new();
    let y = name(&mut context, "y");
    let function = function_object(&mut context, ConstructorKind::Base, None, false);
    let scope = enter(&mut context, function);
    context.heap.compile_environments[scope.index].create_binding(y, true, false);
    let parsed = body(&[y]);
    let plan = Eval::prepare(&parsed, true, true, &mut context).unwrap();
    assert!(plan.strict);
    let mut strict_body = body(&[y]);
    strict_body.strict = true;
    let plan = Eval::prepare(&strict_body, true, false, &mut context).unwrap();
    assert!(plan.strict);
    // A strict evaluation poisons nothing.
    assert!(!context.heap.environment_of(&declarative(&context, 1)).poisoned);
}

#[test]
fn lexical_name_beyond_the_function_scope_does_not_collide() {
    let mut context = Context::new();
    let y = name(&mut context, "y");
    context.heap.compile_environments[0].create_binding(y, true, false);
    let function = function_object(&mut context, ConstructorKind::Base, None, false);
    enter(&mut context, function);
    let parsed = body(&[y]);
    assert!(Eval::prepare(&parsed, true, false, &mut context).is_ok());
    // An indirect evaluation runs at the global scope, where the name collides.
    let message = syntax_error(Eval::prepare(&parsed, false, false, &mut context));
    assert_eq!(
        message,
        "variable declaration y in eval function already exists as a lexical variable"
    );
    assert_eq!(context.vm.environments.len(), 2);
}

#[test]
fn new_target_in_eval_needs_a_function() {
    // eval("new.target") at the global scope, and inside a function.
    let mut context = Context::new();
    let mut parsed = body(&[]);
    parsed.contains_new_target = true;
    let before = context.vm.environments.stack.clone();
    let message = syntax_error(Eval::prepare(&parsed, true, false, &mut context));
    assert_eq!(message, "invalid `new.target` expression inside eval");
    assert_eq!(context.vm.environments.stack, before);
    assert!(!context.heap.environment_of(&declarative(&context, 0)).poisoned);

    let function = function_object(&mut context, ConstructorKind::Base, None, false);
    enter(&mut context, function);
    assert!(Eval::prepare(&parsed, true, false, &mut context).is_ok());
    // An indirect evaluation is never inside a function.
    let message = syntax_error(Eval::prepare(&parsed, false, false, &mut context));
    assert_eq!(message, "invalid `new.target` expression inside eval");
}

#[test]
fn new_target_in_eval_inside_a_construction_is_the_constructor() {
    // new (function () { return eval("new.target"); })()
    let mut context = Context::new();
    let f = context.interner.get_or_intern("f");
    let scope = compile_env(&mut context, 1, true);
    let mut code = CodeBlock::new(f, 0, false);
    code.compile_environments = vec![scope];
    let code = context.heap.alloc_code_block(code);
    let function = create_function_object_fast(code, false, false, false, &mut context);
    let step = function.construct_internal(&[], &JsValue::Object(function), &mut context);
    assert!(matches!(step, ConstructStep::Run(_)));
    let mut parsed = body(&[]);
    parsed.contains_new_target = true;
    assert_eq!(
        Eval::flags(true, &context),
        EvalFlags {
            in_function: true,
            in_method: false,
            in_derived_constructor: false,
            in_class_field_initializer: false
        }
    );
    assert!(Eval::prepare(&parsed, true, false, &mut context).is_ok());
    match context.vm.environments.get_this_environment(&context.heap) {
        EnvironmentSlots::Function(slots) => assert_eq!(slots.new_target, Some(function)),
        EnvironmentSlots::Global => panic!("function environment expected"),
    }
}

#[test]
fn super_and_arguments_early_errors() {
    let mut context = Context::new();
    let plain = function_object(&mut context, ConstructorKind::Base, None, false);
    enter(&mut context, plain);

    let mut property = body(&[]);
    property.contains_super_property = true;
    assert_eq!(
        syntax_error(Eval::prepare(&property, true, false, &mut context)),
        "invalid `super` reference inside eval"
    );
    let mut call = body(&[]);
    call.contains_super_call = true;
    assert_eq!(
        syntax_error(Eval::prepare(&call, true, false, &mut context)),
        "invalid `super` call inside eval"
    );
    let mut arguments = body(&[]);
    arguments.contains_arguments = true;
    assert!(Eval::prepare(&arguments, true, false, &mut context).is_ok());
    // The first error that applies is reported.
    let mut both = body(&[]);
    both.contains_super_call = true;
    both.contains_super_property = true;
    assert_eq!(
        syntax_error(Eval::prepare(&both, true, false, &mut context)),
        "invalid `super` reference inside eval"
    );

    let home = context.heap.alloc_ordinary(None);
    let method = function_object(&mut context, ConstructorKind::Derived, Some(home), true);
    enter(&mut context, method);
    assert_eq!(
        Eval::flags(true, &context),
        EvalFlags {
            in_function: true,
            in_method: true,
            in_derived_constructor: true,
            in_class_field_initializer: true
        }
    );
    assert_eq!(
        Eval::flags(false, &context),
        EvalFlags {
            in_function: false,
            in_method: false,
            in_derived_constructor: false,
            in_class_field_initializer: false
        }
    );
    assert!(Eval::prepare(&property, true, false, &mut context).is_ok());
    assert!(Eval::prepare(&call, true, false, &mut context).is_ok());
    assert_eq!(
        syntax_error(Eval::prepare(&arguments, true, false, &mut context)),
        "invalid `arguments` reference inside eval"
    );
}

#[test]
fn direct_sloppy_eval_poisons_and_extends_the_function_environment() {
    let mut context = Context::new();
    let v = name(&mut context, "v");
    let function = function_object(&mut context, ConstructorKind::Base, None, false);
    let scope = enter(&mut context, function);
    let block = compile_env(&mut context, 2, false);
    context.vm.environments.push_declarative(0, block, &mut context.heap);
    let before = context.vm.environments.stack.clone();
    let parsed = body(&[v]);
    let plan = Eval::prepare(&parsed, true, false, &mut context).unwrap();
    assert!(plan.direct && !plan.strict);
    assert!(matches!(plan.action, EnvStackAction::Truncate(3)));
    assert_eq!(plan.compile_environment, block);
    assert_eq!(context.vm.environments.stack, before);
    assert!(context.heap.environment_of(&declarative(&context, 2)).poisoned);
    assert!(context.heap.environment_of(&declarative(&context, 1)).poisoned);
    assert!(!context.heap.environment_of(&declarative(&context, 0)).poisoned);

    // The compiler declares `var v` and `var w` in the function scope, which
    // had room for one binding.
    let w = name(&mut context, "w");
    context.heap.compile_environments[scope.index].create_binding(v, false, true);
    context.heap.compile_environments[scope.index].create_binding(w, false, true);
    let environments = context.heap.environments.len();
    Eval::compiled(&plan, &mut context);
    assert_eq!(context.heap.environments.len(), environments);
    assert_eq!(context.vm.environments.stack, before);
    assert_eq!(
        context.heap.environment_of(&declarative(&context, 1)).bindings,
        vec![None, None]
    );

    // The code leaves two environments behind and fails.
    context.vm.environments.push_declarative(0, block, &mut context.heap);
    context.vm.environments.push_declarative(0, block, &mut context.heap);
    let failure = Err(JsError::Opaque(JsValue::Integer(1)));
    let result = Eval::finish(plan, failure, &mut context);
    assert!(matches!(result, Err(JsError::Opaque(JsValue::Integer(1)))));
    assert_eq!(context.vm.environments.stack, before);
    // The poison stays.
    assert!(context.heap.environment_of(&declarative(&context, 1)).poisoned);
}

#[test]
fn indirect_eval_runs_at_the_global_scope_and_restores_the_stack() {
    let mut context = Context::new();
    let function = function_object(&mut context, ConstructorKind::Base, None, false);
    enter(&mut context, function);
    let with = context.heap.alloc_ordinary(None);
    context.vm.environments.push_object(with);
    context.vm.stack.push(JsValue::Integer(6));
    let before = context.vm.environments.stack.clone();
    let parsed = body(&[]);
    let plan = Eval::prepare(&parsed, false, false, &mut context).unwrap();
    assert_eq!(context.vm.environments.stack, before[..1].to_vec());
    match &plan.action {
        EnvStackAction::Restore(rest) => assert_eq!(*rest, before[1..].to_vec()),
        other => panic!("restore expected, got {other:?}"),
    }
    assert_eq!(plan.compile_environment, CompileTimeEnvironmentRef { index: 0 });
    assert!(!context.heap.environment_of(&declarative(&context, 0)).poisoned);
    Eval::compiled(&plan, &mut context);
    let block = compile_env(&mut context, 1, false);
    context.vm.environments.push_declarative(0, block, &mut context.heap);
    let result = Eval::finish(plan, Ok(JsValue::Integer(2)), &mut context);
    assert_eq!(result.unwrap(), JsValue::Integer(2));
    assert_eq!(context.vm.environments.stack, before);
    assert_eq!(context.vm.stack, vec![JsValue::Integer(6)]);
}

#[test]
fn restore_environment_actions() {
    let mut context = Context::new();
    let block = compile_env(&mut context, 1, false);
    context.vm.environments.push_declarative(0, block, &mut context.heap);
    context.vm.environments.push_declarative(0, block, &mut context.heap);
    let before = context.vm.environments.stack.clone();
    Eval::restore_environment(&mut context, EnvStackAction::Truncate(5));
    assert_eq!(context.vm.environments.stack, before);
    Eval::restore_environment(&mut context, EnvStackAction::Truncate(2));
    assert_eq!(context.vm.environments.stack, before[..2].to_vec());
    Eval::restore_environment(&mut context, EnvStackAction::Restore(before[1..].to_vec()));
    assert_eq!(context.vm.environments.stack, before);
}

#[test]
fn eval_intrinsic_is_a_function_of_the_host() {
    let mut context = Context::new();
    let intrinsics = context.heap.realm_of(&context.realm).intrinsics;
    let function = Eval::get(&intrinsics);
    assert_eq!(function, intrinsics.eval);
    let object = context.heap.object_of(&function);
    assert_eq!(object.prototype, Some(intrinsics.function_prototype));
    let length = PropertyKey::String("length".encode_utf16().collect());
    let name = PropertyKey::String("name".encode_utf16().collect());
    assert_eq!(context.heap.get(&function, &length), JsValue::Integer(1));
    match context.heap.get(&function, &name) {
        JsValue::String(text) => assert_eq!(
            String::from_utf16(&context.heap.strings[text.index]).unwrap(),
            "eval"
        ),
        other => panic!("string expected, got {other:?}"),
    }
    let source = context.heap.alloc_string("1".encode_utf16().collect());
    let args = [JsValue::String(source)];
    match function.call_internal(&JsValue::Undefined, &args, &mut context) {
        CallStep::Native { function: asked, this, args: passed, .. } => {
            assert_eq!(asked, NativeFunction { id: EVAL_FUNCTION });
            assert_eq!(this, JsValue::Undefined);
            assert_eq!(passed, args.to_vec());
        }
        other => panic!("native step expected, got {other:?}"),
    }
}

#[test]
fn each_realm_has_its_own_eval() {
    let mut context = Context::new();
    let other = context.create_realm();
    let first = context.heap.realm_of(&context.realm).intrinsics.eval;
    let second = context.heap.realm_of(&other).intrinsics.eval;
    assert_ne!(first, second);
    assert_eq!(context.heap.function_of(&second).realm(), other);
    let extra = Eval::init(
        &mut context.heap,
        other,
        JsObject { index: 1 },
    );
    assert_eq!(context.heap.function_of(&extra).realm(), other);
    assert_eq!(
        context.heap.object_of(&extra).prototype,
        Some(JsObject { index: 1 })
    );
}
