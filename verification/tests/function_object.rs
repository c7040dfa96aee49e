use boa_engine::context::Context;
use boa_engine::function::ConstructorKind;
use boa_engine::function::FunctionKind;
use boa_engine::object::Attributes;
use boa_engine::object::ObjectData;
use boa_engine::object::Property;
use boa_engine::object::PropertyKey;
use boa_engine::value::JsObject;
use boa_engine::value::JsValue;
use boa_engine::vm::code_block::CodeBlock;
use boa_engine::vm::code_block::CodeBlockRef;
use boa_engine::vm::function_object::create_function_object;
use boa_engine::vm::function_object::create_function_object_fast;
use boa_engine::vm::function_object::create_generator_function_object;

fn key(text: &str) -> PropertyKey {
    PropertyKey::String(text.encode_utf16().collect())
}

fn code(context: &mut Context, name: &str, length: u32) -> CodeBlockRef {
    let sym = context.interner.get_or_intern(name);
    context
        .heap
        .alloc_code_block(CodeBlock::new(sym, length, false))
}

fn check_property(property: &Property, name: &str, value: JsValue, attributes: Attributes) {
    assert!(property.key.same(&key(name)), "key {name}");
    assert_eq!(property.value, value);
    assert_eq!(property.attributes, attributes);
}

fn text(context: &Context, value: JsValue) -> String {
    match value {
        JsValue::String(string) => String::from_utf16(&context.heap.strings[string.index]).unwrap(),
        other => panic!("string expected, got {other:?}"),
    }
}

const HIDDEN_CONSTANT: Attributes = Attributes {
    writable: false,
    enumerable: false,
    configurable: true,
};

#[test]
fn ordinary_function_has_linked_prototype() {
    let mut context = Context::new();
    let code = code(&mut context, "square", 1);
    let objects = context.heap.objects.len();
    let function = create_function_object_fast(code, false, false, false, &mut context);
    assert_eq!(function.index, objects + 1);
    assert_eq!(context.heap.objects.len(), objects + 2);
    let intrinsics = context.heap.realm_of(&context.realm).intrinsics;
    let object = context.heap.object_of(&function);
    assert_eq!(object.prototype, Some(intrinsics.function_prototype));
    assert_eq!(object.properties.len(), 3);
    check_property(&object.properties[0], "length", JsValue::Integer(1), HIDDEN_CONSTANT);
    assert!(object.properties[1].key.same(&key("name")));
    assert_eq!(object.properties[1].attributes, HIDDEN_CONSTANT);
    assert_eq!(text(&context, object.properties[1].value), "square");
    let prototype = JsObject { index: objects };
    check_property(
        &object.properties[2],
        "prototype",
        JsValue::Object(prototype),
        Attributes { writable: true, enumerable: false, configurable: false },
    );
    let prototype_object = context.heap.object_of(&prototype);
    assert_eq!(prototype_object.prototype, Some(intrinsics.object_prototype));
    assert!(matches!(prototype_object.data, ObjectData::Ordinary));
    assert_eq!(prototype_object.properties.len(), 1);
    check_property(
        &prototype_object.properties[0],
        "constructor",
        JsValue::Object(function),
        Attributes { writable: true, enumerable: false, configurable: true },
    );
    // function.prototype.constructor === function
    let found = context.heap.get(&function, &key("prototype"));
    assert_eq!(
        context.heap.get(&found.as_object().unwrap(), &key("constructor")),
        JsValue::Object(function)
    );
    match &object.data {
        ObjectData::Function(data) => {
            assert_eq!(data.realm(), context.realm);
            match data.kind() {
                FunctionKind::Ordinary {
                    code: held,
                    environments,
                    constructor_kind,
                    home_object,
                    fields,
                    private_methods,
                    class_object,
                } => {
                    assert_eq!(*held, code);
                    assert_eq!(environments.stack, context.vm.environments.stack);
                    assert_eq!(*constructor_kind, ConstructorKind::Base);
                    assert!(home_object.is_none() && class_object.is_none());
                    assert!(fields.is_empty() && private_methods.is_empty());
                }
                other => panic!("ordinary function expected, got {other:?}"),
            }
            assert!(!data.is_derived_constructor());
            assert_eq!(data.code(), Some(code));
            assert_eq!(data.get_home_object(), None);
        }
        other => panic!("function expected, got {other:?}"),
    }
}

#[test]
fn arrow_functions_and_methods_have_no_prototype_property() {
    let mut context = Context::new();
    let code = code(&mut context, "f", 0);
    for (arrow, method) in [(true, false), (false, true), (true, true)] {
        let objects = context.heap.objects.len();
        let function = create_function_object_fast(code, false, arrow, method, &mut context);
        assert_eq!(function.index, objects);
        assert_eq!(context.heap.objects.len(), objects + 1);
        let object = context.heap.object_of(&function);
        assert_eq!(object.properties.len(), 2);
        assert!(!context.heap.has_property(&function, &key("prototype")));
        assert_eq!(
            object.prototype,
            Some(context.heap.realm_of(&context.realm).intrinsics.function_prototype)
        );
    }
}

#[test]
fn async_function_uses_async_function_prototype() {
    let mut context = Context::new();
    let code = code(&mut context, "wait", 3);
    let function = create_function_object_fast(code, true, false, false, &mut context);
    let object = context.heap.object_of(&function);
    assert_eq!(
        object.prototype,
        Some(context.heap.realm_of(&context.realm).intrinsics.async_function_prototype)
    );
    assert_eq!(object.properties.len(), 2);
    check_property(&object.properties[0], "length", JsValue::Integer(3), HIDDEN_CONSTANT);
    match &object.data {
        ObjectData::Function(data) => assert!(matches!(data.kind(), FunctionKind::Async { .. })),
        other => panic!("function expected, got {other:?}"),
    }
}

#[test]
fn custom_prototype_replaces_the_intrinsic_one() {
    let mut context = Context::new();
    let code = code(&mut context, "f", 0);
    let custom = context.heap.alloc_ordinary(None);
    let function = create_function_object(code, false, false, Some(custom), false, &mut context);
    let object = context.heap.object_of(&function);
    assert_eq!(object.prototype, Some(custom));
    assert_eq!(object.properties.len(), 3);
    let prototype = object.properties[2].value.as_object().unwrap();
    assert_eq!(
        context.heap.get(&prototype, &key("constructor")),
        JsValue::Object(function)
    );
    let arrow = create_function_object(code, false, true, Some(custom), false, &mut context);
    assert_eq!(context.heap.object_of(&arrow).prototype, Some(custom));
    assert_eq!(context.heap.object_of(&arrow).properties.len(), 2);
}

#[test]
fn without_prototype_the_fast_path_is_taken() {
    let mut context = Context::new();
    let code = code(&mut context, "f", 0);
    let function = create_function_object(code, true, false, None, false, &mut context);
    assert_eq!(
        context.heap.object_of(&function).prototype,
        Some(context.heap.realm_of(&context.realm).intrinsics.async_function_prototype)
    );
}

#[test]
fn function_closes_over_current_environments() {
    let mut context = Context::new();
    let code = code(&mut context, "f", 0);
    let with = context.heap.alloc_ordinary(None);
    context.vm.environments.push_object(with);
    let function = create_function_object_fast(code, false, true, false, &mut context);
    context.vm.environments.pop();
    match &context.heap.object_of(&function).data {
        ObjectData::Function(data) => match data.kind() {
            FunctionKind::Ordinary { environments, .. } => {
                assert_eq!(environments.len(), 2);
                assert_eq!(environments.stack[0], context.vm.environments.stack[0]);
            }
            other => panic!("ordinary function expected, got {other:?}"),
        },
        other => panic!("function expected, got {other:?}"),
    }
}

#[test]
fn generator_function_has_generator_prototype() {
    let mut context = Context::new();
    let code = code(&mut context, "g", 2);
    let objects = context.heap.objects.len();
    let function = create_generator_function_object(code, false, false, None, &mut context);
    assert_eq!(function.index, objects + 1);
    let intrinsics = context.heap.realm_of(&context.realm).intrinsics;
    let object = context.heap.object_of(&function);
    assert_eq!(object.prototype, Some(intrinsics.generator_function_prototype));
    assert!(matches!(object.data, ObjectData::GeneratorFunction(_)));
    assert_eq!(object.properties.len(), 3);
    let prototype = JsObject { index: objects };
    check_property(
        &object.properties[0],
        "prototype",
        JsValue::Object(prototype),
        Attributes { writable: false, enumerable: false, configurable: false },
    );
    assert_eq!(text(&context, object.properties[1].value), "g");
    assert_eq!(object.properties[1].attributes, HIDDEN_CONSTANT);
    check_property(&object.properties[2], "length", JsValue::Integer(2), HIDDEN_CONSTANT);
    let prototype_object = context.heap.object_of(&prototype);
    assert_eq!(prototype_object.prototype, Some(intrinsics.generator));
    assert!(prototype_object.properties.is_empty());
    match object.data.as_function().unwrap().kind() {
        FunctionKind::Generator { code: held, .. } => assert_eq!(*held, code),
        other => panic!("generator expected, got {other:?}"),
    }
}

#[test]
fn async_generator_method_has_no_prototype_property() {
    let mut context = Context::new();
    let code = code(&mut context, "g", 0);
    let custom = context.heap.alloc_ordinary(None);
    let function = create_generator_function_object(code, true, true, Some(custom), &mut context);
    let object = context.heap.object_of(&function);
    assert_eq!(object.prototype, Some(custom));
    assert!(matches!(object.data, ObjectData::AsyncGeneratorFunction(_)));
    assert_eq!(object.properties.len(), 2);
    assert!(object.properties[0].key.same(&key("name")));
    assert!(object.properties[1].key.same(&key("length")));
    let plain = create_generator_function_object(code, true, false, None, &mut context);
    let intrinsics = context.heap.realm_of(&context.realm).intrinsics;
    assert_eq!(
        context.heap.object_of(&plain).prototype,
        Some(intrinsics.async_generator_function_prototype)
    );
    let prototype = context.heap.get(&plain, &key("prototype")).as_object().unwrap();
    assert_eq!(
        context.heap.object_of(&prototype).prototype,
        Some(intrinsics.async_generator)
    );
}
