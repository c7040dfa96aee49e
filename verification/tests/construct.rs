use boa_engine::context::Context;
use boa_engine::environments::compile::CompileTimeEnvironment;
use boa_engine::environments::compile::CompileTimeEnvironmentRef;
use boa_engine::environments::runtime::DeclarativeEnvironmentRef;
use boa_engine::environments::runtime::Environment;
use boa_engine::environments::runtime::EnvironmentSlots;
use boa_engine::environments::runtime::ThisBindingStatus;
use boa_engine::error::JsError;
use boa_engine::error::JsNativeError;
use boa_engine::error::JsNativeErrorKind;
use boa_engine::function::ClassElement;
use boa_engine::function::ConstructorKind;
use boa_engine::function::Function;
use boa_engine::function::FunctionKind;
use boa_engine::function::NativeFunction;
use boa_engine::object::Object;
use boa_engine::object::ObjectData;
use boa_engine::object::PropertyKey;
use boa_engine::value::JsObject;
use boa_engine::value::JsValue;
use boa_engine::vm::code_block::CodeBlock;
use boa_engine::vm::construct::ConstructResume;
use boa_engine::vm::construct::ConstructStep;
use boa_engine::vm::function_object::create_function_object_fast;
use thin_vec::ThinVec;

const DERIVED_RETURN: &str = "derived constructor can only return an Object or undefined";

fn key(text: &str) -> PropertyKey {
    PropertyKey::String(text.encode_utf16().collect())
}

fn declarative(context: &Context, index: usize) -> DeclarativeEnvironmentRef {
    match context.vm.environments.stack[index] {
        Environment::Declarative(env) => env,
        Environment::Object(_) => panic!("not a declarative environment"),
    }
}

fn constructor_code(context: &mut Context, name: &str) -> CodeBlock {
    let sym = context.interner.get_or_intern(name);
    let scope = context.heap.alloc_compile_environment(CompileTimeEnvironment::new(
        CompileTimeEnvironmentRef { index: 0 },
        1,
        true,
    ));
    let mut code = CodeBlock::new(sym, 0, true);
    code.compile_environments = vec![scope];
    code.is_class_constructor = true;
    code
}

/// `class B {}`
fn base_class(context: &mut Context) -> JsObject {
    let code = constructor_code(context, "B");
    let code = context.heap.alloc_code_block(code);
    create_function_object_fast(code, false, false, false, context)
}

/// `class D extends B { constructor() { ... } }`
fn derived_class(context: &mut Context, fields: ThinVec<ClassElement>) -> JsObject {
    let code = constructor_code(context, "D");
    let code = context.heap.alloc_code_block(code);
    let environments = context.vm.environments.duplicate();
    let prototype = context.heap.alloc_ordinary(None);
    let function = context.heap.alloc_object(Object {
        prototype: None,
        properties: Vec::new(),
        data: ObjectData::Function(Function::new(
            FunctionKind::Ordinary {
                code,
                environments,
                constructor_kind: ConstructorKind::Derived,
                home_object: None,
                fields,
                private_methods: ThinVec::new(),
                class_object: None,
            },
            context.realm,
        )),
    });
    context
        .heap
        .set(&function, key("prototype"), JsValue::Object(prototype), true)
        .unwrap();
    function
}

fn run(step: ConstructStep) -> ConstructResume {
    match step {
        ConstructStep::Run(resume) => resume,
        other => panic!("run expected, got {other:?}"),
    }
}

fn expect_error(result: Result<JsObject, JsError>, kind: JsNativeErrorKind, message: &str) {
    match result {
        Err(JsError::Native(err)) => {
            assert_eq!(err.kind, kind);
            assert_eq!(err.message, message);
        }
        other => panic!("error expected, got {other:?}"),
    }
}

#[test]
fn base_constructor_gets_a_new_object_as_this() {
    let mut context = Context::new();
    let class = base_class(&mut context);
    let prototype = context.heap.get(&class, &key("prototype")).as_object().unwrap();
    let before = context.vm.environments.stack.clone();
    context.vm.stack.push(JsValue::Integer(0));
    let objects = context.heap.objects.len();
    let args = [JsValue::Integer(1), JsValue::Integer(2)];
    let step = class.construct_internal(&args, &JsValue::Object(class), &mut context);
    let instance = JsObject { index: objects };
    assert_eq!(context.heap.object_of(&instance).prototype, Some(prototype));
    assert!(context.heap.object_of(&instance).properties.is_empty());
    match context.heap.environment_of(&declarative(&context, 1)).slots {
        Some(EnvironmentSlots::Function(slots)) => {
            assert_eq!(slots.this, JsValue::Object(instance));
            assert_eq!(slots.this_binding_status, ThisBindingStatus::Initialized);
            assert_eq!(slots.function_object, class);
            assert_eq!(slots.new_target, Some(class));
        }
        other => panic!("function slots expected, got {other:?}"),
    }
    // The arguments go on top of the operand stack, last argument first.
    assert_eq!(
        context.vm.stack,
        vec![JsValue::Integer(0), JsValue::Integer(2), JsValue::Integer(1)]
    );
    assert_eq!(context.vm.frames.len(), 1);
    assert_eq!(context.vm.frames[0].arg_count, 2);
    let resume = run(step);
    let result = JsObject::complete_construct(resume, Ok(JsValue::Undefined), &mut context);
    assert_eq!(result.unwrap(), instance);
    assert_eq!(context.vm.environments.stack, before);
    assert!(context.vm.frames.is_empty());
    assert_eq!(context.vm.active_function, None);
}

#[test]
fn base_constructor_returns_the_object_that_the_code_returned() {
    let mut context = Context::new();
    let class = base_class(&mut context);
    let returned = context.heap.alloc_ordinary(None);
    let resume = run(class.construct_internal(&[], &JsValue::Object(class), &mut context));
    let result = JsObject::complete_construct(resume, Ok(JsValue::Object(returned)), &mut context);
    assert_eq!(result.unwrap(), returned);
}

#[test]
fn base_constructor_ignores_a_primitive_return_value() {
    let mut context = Context::new();
    let class = base_class(&mut context);
    let objects = context.heap.objects.len();
    let resume = run(class.construct_internal(&[], &JsValue::Object(class), &mut context));
    let result = JsObject::complete_construct(resume, Ok(JsValue::Integer(1)), &mut context);
    assert_eq!(result.unwrap(), JsObject { index: objects });
}

#[test]
fn prototype_falls_back_to_object_prototype() {
    let mut context = Context::new();
    let class = base_class(&mut context);
    let target = derived_class(&mut context, ThinVec::new());
    context
        .heap
        .set(&target, key("prototype"), JsValue::Integer(3), true)
        .unwrap();
    let objects = context.heap.objects.len();
    let _resume = run(class.construct_internal(&[], &JsValue::Object(target), &mut context));
    assert_eq!(
        context.heap.object_of(&JsObject { index: objects }).prototype,
        Some(context.heap.realm_of(&context.realm).intrinsics.object_prototype)
    );
}

#[test]
fn derived_constructor_returning_a_number_is_a_type_error() {
    // class B {} class D extends B { constructor() { return 1; } } new D()
    let mut context = Context::new();
    let class = derived_class(&mut context, ThinVec::new());
    let before = context.vm.environments.stack.clone();
    let objects = context.heap.objects.len();
    let resume = run(class.construct_internal(&[], &JsValue::Object(class), &mut context));
    // A derived constructor starts without `this`.
    assert_eq!(context.heap.objects.len(), objects);
    match context.heap.environment_of(&declarative(&context, 1)).slots {
        Some(EnvironmentSlots::Function(slots)) => {
            assert_eq!(slots.this_binding_status, ThisBindingStatus::Uninitialized)
        }
        other => panic!("function slots expected, got {other:?}"),
    }
    let result = JsObject::complete_construct(resume, Ok(JsValue::Integer(1)), &mut context);
    expect_error(result, JsNativeErrorKind::Type, DERIVED_RETURN);
    assert_eq!(context.vm.environments.stack, before);
}

#[test]
fn derived_constructor_returning_an_object_returns_that_object() {
    // constructor() { return {}; }
    let mut context = Context::new();
    let class = derived_class(&mut context, ThinVec::new());
    let returned = context.heap.alloc_ordinary(None);
    let resume = run(class.construct_internal(&[], &JsValue::Object(class), &mut context));
    let result = JsObject::complete_construct(resume, Ok(JsValue::Object(returned)), &mut context);
    assert_eq!(result.unwrap(), returned);
}

#[test]
fn derived_constructor_without_super_call_is_a_reference_error() {
    // constructor() { return; }
    let mut context = Context::new();
    let class = derived_class(&mut context, ThinVec::new());
    let resume = run(class.construct_internal(&[], &JsValue::Object(class), &mut context));
    let result = JsObject::complete_construct(resume, Ok(JsValue::Undefined), &mut context);
    expect_error(
        result,
        JsNativeErrorKind::Reference,
        "Must call super constructor in derived class before accessing 'this' or returning from derived constructor",
    );
}

#[test]
fn derived_constructor_returns_this_bound_by_super() {
    let mut context = Context::new();
    let class = derived_class(&mut context, ThinVec::new());
    let resume = run(class.construct_internal(&[], &JsValue::Object(class), &mut context));
    // super() binds `this`.
    let this = context.heap.alloc_ordinary(None);
    let env = declarative(&context, 1);
    match &mut context.heap.environments[env.index].slots {
        Some(EnvironmentSlots::Function(slots)) => assert!(slots.bind_this_value(&this)),
        other => panic!("function slots expected, got {other:?}"),
    }
    // More environments on top do not hide the function environment.
    let scope = context.heap.environment_of(&env).compile;
    context.vm.environments.push_declarative(0, scope, &mut context.heap);
    let result = JsObject::complete_construct(resume, Ok(JsValue::Undefined), &mut context);
    assert_eq!(result.unwrap(), this);
}

#[test]
fn error_of_the_code_is_passed_on_with_the_realm() {
    let mut context = Context::new();
    let class = derived_class(&mut context, ThinVec::new());
    let resume = run(class.construct_internal(&[], &JsValue::Object(class), &mut context));
    let failure = Err(JsError::Native(
        JsNativeError::syntax().with_message("bad".to_string()),
    ));
    match JsObject::complete_construct(resume, failure, &mut context) {
        Err(JsError::Native(err)) => {
            assert_eq!(err.kind, JsNativeErrorKind::Syntax);
            assert_eq!(err.message, "bad");
            assert_eq!(err.realm, Some(context.realm));
        }
        other => panic!("error expected, got {other:?}"),
    }
}

#[test]
fn class_with_fields_asks_for_their_installation() {
    let mut context = Context::new();
    let initializer = context.heap.alloc_ordinary(None);
    let field_name = context.heap.alloc_string("x".encode_utf16().collect());
    let mut fields = ThinVec::new();
    fields.push(ClassElement { name: field_name, private: false, function: initializer });
    let class = derived_class(&mut context, fields);
    // Make it a base class with a field.
    match &mut context.heap.objects[class.index].data {
        ObjectData::Function(function) => match &mut function.kind {
            FunctionKind::Ordinary { constructor_kind, .. } => {
                *constructor_kind = ConstructorKind::Base
            }
            other => panic!("ordinary function expected, got {other:?}"),
        },
        other => panic!("function expected, got {other:?}"),
    }
    let before = context.vm.environments.stack.clone();
    let objects = context.heap.objects.len();
    let args = [JsValue::Integer(5)];
    let step = class.construct_internal(&args, &JsValue::Object(class), &mut context);
    let resume = match step {
        ConstructStep::InitializeInstanceElements { this, constructor, resume } => {
            assert_eq!(this, JsObject { index: objects });
            assert_eq!(constructor, class);
            resume
        }
        other => panic!("initialization expected, got {other:?}"),
    };
    // Nothing was entered yet.
    assert_eq!(context.vm.environments.len(), 1);
    assert!(context.vm.frames.is_empty());
    let resume = run(class.continue_construct(resume, Ok(()), &mut context));
    assert_eq!(context.vm.environments.len(), 2);
    assert_eq!(context.vm.stack, vec![JsValue::Integer(5)]);
    match context.heap.environment_of(&declarative(&context, 1)).slots {
        Some(EnvironmentSlots::Function(slots)) => {
            assert_eq!(slots.this, JsValue::Object(JsObject { index: objects }))
        }
        other => panic!("function slots expected, got {other:?}"),
    }
    let result = JsObject::complete_construct(resume, Ok(JsValue::Null), &mut context);
    assert_eq!(result.unwrap(), JsObject { index: objects });
    assert_eq!(context.vm.environments.stack, before);
}

#[test]
fn failed_field_installation_ends_the_construction() {
    let mut context = Context::new();
    let initializer = context.heap.alloc_ordinary(None);
    let field_name = context.heap.alloc_string("x".encode_utf16().collect());
    let mut fields = ThinVec::new();
    fields.push(ClassElement { name: field_name, private: true, function: initializer });
    let class = derived_class(&mut context, fields);
    match &mut context.heap.objects[class.index].data {
        ObjectData::Function(function) => match &mut function.kind {
            FunctionKind::Ordinary { constructor_kind, .. } => {
                *constructor_kind = ConstructorKind::Base
            }
            other => panic!("ordinary function expected, got {other:?}"),
        },
        other => panic!("function expected, got {other:?}"),
    }
    let before = context.vm.environments.stack.clone();
    let step = class.construct_internal(&[], &JsValue::Object(class), &mut context);
    let resume = match step {
        ConstructStep::InitializeInstanceElements { resume, .. } => resume,
        other => panic!("initialization expected, got {other:?}"),
    };
    let failure = Err(JsError::Opaque(JsValue::Integer(3)));
    match class.continue_construct(resume, failure, &mut context) {
        ConstructStep::Done(Err(JsError::Opaque(JsValue::Integer(3)))) => {}
        other => panic!("error expected, got {other:?}"),
    }
    assert_eq!(context.vm.environments.stack, before);
    assert_eq!(context.vm.active_function, None);
}

#[test]
fn derived_class_with_fields_does_not_install_them_up_front() {
    let mut context = Context::new();
    let initializer = context.heap.alloc_ordinary(None);
    let field_name = context.heap.alloc_string("x".encode_utf16().collect());
    let mut fields = ThinVec::new();
    fields.push(ClassElement { name: field_name, private: false, function: initializer });
    let class = derived_class(&mut context, fields);
    let step = class.construct_internal(&[], &JsValue::Object(class), &mut context);
    assert!(matches!(step, ConstructStep::Run(_)));
}

fn native_constructor(context: &mut Context, kind: ConstructorKind) -> JsObject {
    context.heap.alloc_object(Object {
        prototype: None,
        properties: Vec::new(),
        data: ObjectData::Function(Function::new(
            FunctionKind::Native { function: NativeFunction { id: 2 }, constructor: Some(kind) },
            context.realm,
        )),
    })
}

fn native_resume(step: ConstructStep, target: JsObject) -> ConstructResume {
    match step {
        ConstructStep::Native { function, new_target, args, resume } => {
            assert_eq!(function, NativeFunction { id: 2 });
            assert_eq!(new_target, JsValue::Object(target));
            assert_eq!(args, vec![JsValue::Integer(1)]);
            resume
        }
        other => panic!("native step expected, got {other:?}"),
    }
}

#[test]
fn native_constructor_result_is_coerced() {
    let mut context = Context::new();
    let args = [JsValue::Integer(1)];
    let target = base_class(&mut context);
    let prototype = context.heap.get(&target, &key("prototype")).as_object().unwrap();

    // An object is used as it is.
    let base = native_constructor(&mut context, ConstructorKind::Base);
    let returned = context.heap.alloc_ordinary(None);
    let step = base.construct_internal(&args, &JsValue::Object(target), &mut context);
    let resume = native_resume(step, target);
    let result = JsObject::complete_construct(resume, Ok(JsValue::Object(returned)), &mut context);
    assert_eq!(result.unwrap(), returned);

    // A base constructor that returns no object gets a new one.
    let objects = context.heap.objects.len();
    let step = base.construct_internal(&args, &JsValue::Object(target), &mut context);
    let resume = native_resume(step, target);
    let result = JsObject::complete_construct(resume, Ok(JsValue::Integer(1)), &mut context);
    assert_eq!(result.unwrap(), JsObject { index: objects });
    assert_eq!(
        context.heap.object_of(&JsObject { index: objects }).prototype,
        Some(prototype)
    );

    // So does a derived constructor that returns `undefined`.
    let derived = native_constructor(&mut context, ConstructorKind::Derived);
    let objects = context.heap.objects.len();
    let step = derived.construct_internal(&args, &JsValue::Object(target), &mut context);
    let resume = native_resume(step, target);
    let result = JsObject::complete_construct(resume, Ok(JsValue::Undefined), &mut context);
    assert_eq!(result.unwrap(), JsObject { index: objects });

    // Any other value from a derived constructor is a type error.
    let objects = context.heap.objects.len();
    let before = context.vm.environments.stack.clone();
    let step = derived.construct_internal(&args, &JsValue::Object(target), &mut context);
    let resume = native_resume(step, target);
    let result = JsObject::complete_construct(resume, Ok(JsValue::Boolean(true)), &mut context);
    expect_error(result, JsNativeErrorKind::Type, DERIVED_RETURN);
    assert_eq!(context.heap.objects.len(), objects);
    assert_eq!(context.vm.environments.stack, before);
    assert_eq!(context.vm.active_function, None);

    // An error is passed on, stamped with the realm.
    let step = derived.construct_internal(&args, &JsValue::Object(target), &mut context);
    let resume = native_resume(step, target);
    let failure = Err(JsError::Native(JsNativeError::reference()));
    match JsObject::complete_construct(resume, failure, &mut context) {
        Err(JsError::Native(err)) => {
            assert_eq!(err.kind, JsNativeErrorKind::Reference);
            assert_eq!(err.realm, Some(context.realm));
        }
        other => panic!("error expected, got {other:?}"),
    }
}

#[test]
fn get_prototype_from_constructor_reads_the_prototype_property() {
    let mut context = Context::new();
    let class = base_class(&mut context);
    let prototype = context.heap.get(&class, &key("prototype")).as_object().unwrap();
    assert_eq!(context.get_prototype_from_constructor(&class), prototype);
    let plain = context.heap.alloc_ordinary(None);
    assert_eq!(
        context.get_prototype_from_constructor(&plain),
        context.heap.realm_of(&context.realm).intrinsics.object_prototype
    );
    // A function of another realm falls back to that realm's intrinsic.
    let other = context.create_realm();
    let foreign = context.heap.alloc_object(Object {
        prototype: None,
        properties: Vec::new(),
        data: ObjectData::Function(Function::new(
            FunctionKind::Native { function: NativeFunction { id: 1 }, constructor: None },
            other,
        )),
    });
    assert_eq!(
        context.get_prototype_from_constructor(&foreign),
        context.heap.realm_of(&other).intrinsics.object_prototype
    );
}
