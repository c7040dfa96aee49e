use boa_engine::context::Context;
use boa_engine::environments::compile::CompileTimeEnvironment;
use boa_engine::environments::compile::CompileTimeEnvironmentRef;
use boa_engine::environments::runtime::BindingLocator;
use boa_engine::environments::runtime::Environment;
use boa_engine::error::JsError;
use boa_engine::error::JsNativeErrorKind;
use boa_engine::interner::Identifier;
use boa_engine::object::Attributes;
use boa_engine::object::PropertyKey;
use boa_engine::value::JsObject;
use boa_engine::value::JsString;
use boa_engine::value::JsSymbol;
use boa_engine::value::JsValue;

fn name(context: &mut Context, text: &str) -> Identifier {
    Identifier::new(context.interner.get_or_intern(text))
}

fn key(text: &str) -> PropertyKey {
    PropertyKey::String(text.encode_utf16().collect())
}

fn compile_env(context: &mut Context, index: usize, function: bool) -> CompileTimeEnvironmentRef {
    let outer = CompileTimeEnvironmentRef { index: 0 };
    context
        .heap
        .alloc_compile_environment(CompileTimeEnvironment::new(outer, index, function))
}

fn object_with(context: &mut Context, property: &str, value: JsValue) -> JsObject {
    let prototype = context.heap.realm_of(&context.realm).intrinsics.object_prototype;
    let object = context.heap.alloc_ordinary(Some(prototype));
    assert_eq!(context.heap.set(&object, key(property), value, true).unwrap(), true);
    object
}

#[test]
fn locator_is_unchanged_on_the_fast_path() {
    let mut context = Context::new();
    let x = name(&mut context, "x");
    let c = compile_env(&mut context, 1, true);
    context.heap.compile_environments[c.index].create_binding(x, false, true);
    context.vm.environments.push_declarative(1, c, &mut context.heap);
    let mut locator = BindingLocator::global(x);
    assert!(context.find_runtime_binding(&mut locator).is_ok());
    assert_eq!(locator, BindingLocator::global(x));
}

#[test]
fn with_object_retargets_the_locator() {
    // with ({x: 1}) { x }
    let mut context = Context::new();
    let x = name(&mut context, "x");
    let object = object_with(&mut context, "x", JsValue::Integer(1));
    let index = context.vm.environments.push_object(object);
    let mut locator = BindingLocator::global(x);
    assert!(context.find_runtime_binding(&mut locator).is_ok());
    assert_eq!(locator.environment_index(), index);
    assert!(!locator.is_global());
    assert_eq!(locator.name(), x);
    assert_eq!(context.get_binding(locator).unwrap(), Some(JsValue::Integer(1)));
    assert_eq!(context.read_binding(locator).unwrap(), JsValue::Integer(1));
    assert_eq!(context.is_initialized_binding(&locator).unwrap(), true);
}

#[test]
fn with_object_property_is_found_through_the_prototype() {
    let mut context = Context::new();
    let x = name(&mut context, "x");
    let parent = object_with(&mut context, "x", JsValue::Integer(7));
    let child = context.heap.alloc_ordinary(Some(parent));
    context.vm.environments.push_object(child);
    let mut locator = BindingLocator::global(x);
    context.find_runtime_binding(&mut locator).unwrap();
    assert_eq!(locator.environment_index(), 1);
    assert_eq!(context.get_binding(locator).unwrap(), Some(JsValue::Integer(7)));
}

#[test]
fn unscopables_hide_the_property() {
    let mut context = Context::new();
    let x = name(&mut context, "x");
    let y = name(&mut context, "y");
    let object = object_with(&mut context, "x", JsValue::Integer(1));
    context
        .heap
        .set(&object, key("y"), JsValue::Integer(2), true)
        .unwrap();
    let unscopables = object_with(&mut context, "x", JsValue::Boolean(true));
    context
        .heap
        .set(&unscopables, key("y"), JsValue::Boolean(false), true)
        .unwrap();
    context.heap.add_property(
        &object,
        PropertyKey::Symbol(JsSymbol::unscopables()),
        JsValue::Object(unscopables),
        Attributes { writable: false, enumerable: false, configurable: false },
    );
    context.vm.environments.push_object(object);

    let mut hidden = BindingLocator::global(x);
    context.find_runtime_binding(&mut hidden).unwrap();
    assert_eq!(hidden, BindingLocator::global(x));

    let mut visible = BindingLocator::global(y);
    context.find_runtime_binding(&mut visible).unwrap();
    assert_eq!(visible.environment_index(), 1);
    assert!(!visible.is_global());
}

#[test]
fn unscopables_that_is_no_object_hides_nothing() {
    let mut context = Context::new();
    let x = name(&mut context, "x");
    let object = object_with(&mut context, "x", JsValue::Integer(1));
    context.heap.add_property(
        &object,
        PropertyKey::Symbol(JsSymbol::unscopables()),
        JsValue::Boolean(true),
        Attributes { writable: false, enumerable: false, configurable: false },
    );
    context.vm.environments.push_object(object);
    let mut locator = BindingLocator::global(x);
    context.find_runtime_binding(&mut locator).unwrap();
    assert_eq!(locator.environment_index(), 1);
    assert!(!locator.is_global());
}

#[test]
fn innermost_with_object_wins() {
    let mut context = Context::new();
    let x = name(&mut context, "x");
    let outer = object_with(&mut context, "x", JsValue::Integer(1));
    let inner = object_with(&mut context, "x", JsValue::Integer(2));
    context.vm.environments.push_object(outer);
    let c = compile_env(&mut context, 2, false);
    context.vm.environments.push_declarative(0, c, &mut context.heap);
    context.vm.environments.push_object(inner);
    let c2 = compile_env(&mut context, 4, false);
    context.vm.environments.push_declarative(0, c2, &mut context.heap);
    let mut locator = BindingLocator::global(x);
    context.find_runtime_binding(&mut locator).unwrap();
    assert_eq!(locator.environment_index(), 3);
    assert_eq!(context.get_binding(locator).unwrap(), Some(JsValue::Integer(2)));
}

#[test]
fn poisoned_function_environment_retargets_the_locator() {
    let mut context = Context::new();
    let x = name(&mut context, "x");
    let y = name(&mut context, "y");
    let function = compile_env(&mut context, 1, true);
    context.vm.environments.push_declarative(2, function, &mut context.heap);
    let block = compile_env(&mut context, 2, false);
    context.vm.environments.push_declarative(0, block, &mut context.heap);
    context.vm.environments.poison_until_last_function(&mut context.heap);
    // A direct eval declared `var x` in the function after the code was compiled.
    context.heap.compile_environments[function.index].create_binding(y, false, true);
    context.heap.compile_environments[function.index].create_binding(x, false, true);

    let mut locator = BindingLocator::global(x);
    context.find_runtime_binding(&mut locator).unwrap();
    assert_eq!(locator, BindingLocator::declarative(x, 1, 1));

    // A name that the function does not declare passes through.
    let z = name(&mut context, "z");
    let mut other = BindingLocator::global(z);
    context.find_runtime_binding(&mut other).unwrap();
    assert_eq!(other, BindingLocator::global(z));
}

#[test]
fn environments_below_the_locator_are_not_asked() {
    let mut context = Context::new();
    let x = name(&mut context, "x");
    let object = object_with(&mut context, "x", JsValue::Integer(1));
    context.vm.environments.push_object(object);
    let c = compile_env(&mut context, 2, false);
    context.heap.compile_environments[c.index].create_binding(x, true, false);
    context.vm.environments.push_declarative(1, c, &mut context.heap);
    let mut locator = BindingLocator::declarative(x, 2, 0);
    context.find_runtime_binding(&mut locator).unwrap();
    assert_eq!(locator, BindingLocator::declarative(x, 2, 0));
}

#[test]
fn declarative_binding_round_trip() {
    let mut context = Context::new();
    let x = name(&mut context, "x");
    let c = compile_env(&mut context, 1, false);
    context.vm.environments.push_declarative(2, c, &mut context.heap);
    let locator = BindingLocator::declarative(x, 1, 1);
    assert_eq!(context.is_initialized_binding(&locator).unwrap(), false);
    assert_eq!(context.get_binding(locator).unwrap(), None);
    context.set_binding(locator, JsValue::Undefined, true).unwrap();
    assert_eq!(context.is_initialized_binding(&locator).unwrap(), true);
    assert_eq!(context.get_binding(locator).unwrap(), Some(JsValue::Undefined));
    context.set_binding(locator, JsValue::Integer(3), false).unwrap();
    assert_eq!(context.get_binding(locator).unwrap(), Some(JsValue::Integer(3)));
    assert_eq!(context.delete_binding(locator).unwrap(), false);
    assert_eq!(context.get_binding(locator).unwrap(), Some(JsValue::Integer(3)));
    assert_eq!(
        *context.environment_expect(1),
        context.vm.environments.stack[1]
    );
    assert!(matches!(
        context.environment_expect(0),
        Environment::Declarative(_)
    ));
}

#[test]
fn reading_an_uninitialized_binding_is_a_reference_error() {
    let mut context = Context::new();
    let x = name(&mut context, "answer");
    let c = compile_env(&mut context, 1, false);
    context.vm.environments.push_declarative(1, c, &mut context.heap);
    let locator = BindingLocator::declarative(x, 1, 0);
    match context.read_binding(locator) {
        Err(JsError::Native(err)) => {
            assert_eq!(err.kind, JsNativeErrorKind::Reference);
            assert_eq!(err.message, "answer is not initialized");
        }
        other => panic!("reference error expected, got {other:?}"),
    }
    // A present `undefined` is not absent.
    context.set_binding(locator, JsValue::Undefined, true).unwrap();
    assert_eq!(context.read_binding(locator).unwrap(), JsValue::Undefined);
}

#[test]
fn global_binding_round_trip() {
    let mut context = Context::new();
    let x = name(&mut context, "x");
    let locator = BindingLocator::global(x);
    assert_eq!(context.is_initialized_binding(&locator).unwrap(), false);
    assert_eq!(context.get_binding(locator).unwrap(), None);
    assert!(context.read_binding(locator).is_err());
    context.set_binding(locator, JsValue::Integer(1), false).unwrap();
    assert_eq!(context.is_initialized_binding(&locator).unwrap(), true);
    assert_eq!(context.get_binding(locator).unwrap(), Some(JsValue::Integer(1)));
    let global = context.global_object();
    assert_eq!(context.heap.get(&global, &key("x")), JsValue::Integer(1));
    assert_eq!(context.delete_binding(locator).unwrap(), true);
    assert_eq!(context.get_binding(locator).unwrap(), None);
    assert_eq!(context.delete_binding(locator).unwrap(), true);
}

#[test]
fn object_binding_round_trip() {
    let mut context = Context::new();
    let x = name(&mut context, "x");
    let missing = name(&mut context, "missing");
    let object = object_with(&mut context, "x", JsValue::Integer(1));
    context.vm.environments.push_object(object);
    let locator = BindingLocator::declarative(x, 1, 0);
    context.set_binding(locator, JsValue::Integer(2), true).unwrap();
    assert_eq!(context.heap.get(&object, &key("x")), JsValue::Integer(2));
    assert_eq!(context.get_binding(locator).unwrap(), Some(JsValue::Integer(2)));
    // A property that the object lacks reads as `undefined`, not as absent.
    let other = BindingLocator::declarative(missing, 1, 0);
    assert_eq!(context.get_binding(other).unwrap(), Some(JsValue::Undefined));
    assert_eq!(context.is_initialized_binding(&other).unwrap(), true);
    assert_eq!(context.delete_binding(locator).unwrap(), true);
    assert!(!context.heap.has_property(&object, &key("x")));
}

#[test]
fn read_only_property_rejects_strict_write() {
    let mut context = Context::new();
    let x = name(&mut context, "x");
    let object = context.heap.alloc_ordinary(None);
    context.heap.add_property(
        &object,
        key("x"),
        JsValue::Integer(1),
        Attributes { writable: false, enumerable: true, configurable: false },
    );
    context.vm.environments.push_object(object);
    let locator = BindingLocator::declarative(x, 1, 0);
    assert!(context.set_binding(locator, JsValue::Integer(2), false).is_ok());
    assert_eq!(context.heap.get(&object, &key("x")), JsValue::Integer(1));
    match context.set_binding(locator, JsValue::Integer(2), true) {
        Err(JsError::Native(err)) => {
            assert_eq!(err.kind, JsNativeErrorKind::Type);
            assert_eq!(err.message, "cannot assign to read only property");
        }
        other => panic!("type error expected, got {other:?}"),
    }
    assert_eq!(context.heap.get(&object, &key("x")), JsValue::Integer(1));
    // A property that is not configurable cannot be deleted.
    assert_eq!(context.delete_binding(locator).unwrap(), false);
    assert!(context.heap.has_property(&object, &key("x")));
}

#[test]
fn inherited_read_only_property_blocks_assignment() {
    let mut context = Context::new();
    let parent = context.heap.alloc_ordinary(None);
    context.heap.add_property(
        &parent,
        key("x"),
        JsValue::Integer(1),
        Attributes { writable: false, enumerable: true, configurable: true },
    );
    let child = context.heap.alloc_ordinary(Some(parent));
    assert_eq!(
        context.heap.set(&child, key("x"), JsValue::Integer(2), false).unwrap(),
        false
    );
    assert_eq!(context.heap.get(&child, &key("x")), JsValue::Integer(1));
    // An inherited writable property is shadowed by a new own property.
    assert_eq!(
        context.heap.set(&child, key("y"), JsValue::Integer(3), true).unwrap(),
        true
    );
    assert_eq!(context.heap.get(&child, &key("y")), JsValue::Integer(3));
    assert_eq!(context.heap.get(&parent, &key("y")), JsValue::Undefined);
}

#[test]
fn to_boolean_of_each_kind_of_value() {
    let mut context = Context::new();
    let empty = context.heap.alloc_string(Vec::new());
    let text = context.heap.alloc_string("a".encode_utf16().collect());
    let heap = &context.heap;
    assert!(!heap.to_boolean(&JsValue::Undefined));
    assert!(!heap.to_boolean(&JsValue::Null));
    assert!(!heap.to_boolean(&JsValue::Boolean(false)));
    assert!(heap.to_boolean(&JsValue::Boolean(true)));
    assert!(!heap.to_boolean(&JsValue::Integer(0)));
    assert!(heap.to_boolean(&JsValue::Integer(-1)));
    assert!(!heap.to_boolean(&JsValue::String(empty)));
    assert!(heap.to_boolean(&JsValue::String(text)));
    assert!(!heap.to_boolean(&JsValue::String(JsString { index: 99 })));
    assert!(heap.to_boolean(&JsValue::Object(JsObject { index: 0 })));
    assert!(heap.to_boolean(&JsValue::Symbol(JsSymbol::unscopables())));
    assert!(!heap.to_boolean(&JsValue::Rational(0.0f64.to_bits())));
    assert!(!heap.to_boolean(&JsValue::Rational((-0.0f64).to_bits())));
    assert!(!heap.to_boolean(&JsValue::Rational(f64::NAN.to_bits())));
    assert!(heap.to_boolean(&JsValue::Rational(f64::INFINITY.to_bits())));
    assert!(heap.to_boolean(&JsValue::Rational(0.5f64.to_bits())));
}
