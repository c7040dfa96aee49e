use boa_engine::context::Context;
use boa_engine::function::FormalParameter;
use boa_engine::function::FormalParameterList;
use boa_engine::function::ThisMode;
use boa_engine::interner::Identifier;
use boa_engine::value::get_or_undefined;
use boa_engine::value::JsObject;
use boa_engine::value::JsValue;
use boa_engine::vm::code_block::CodeBlock;
use boa_engine::vm::CallFrame;
use boa_engine::vm::code_block::CodeBlockRef;
use boa_interner::Sym;

fn parameter(context: &mut Context, text: &str) -> FormalParameter {
    FormalParameter {
        name: Identifier::new(context.interner.get_or_intern(text)),
        has_initializer: false,
        is_rest: false,
        is_pattern: false,
    }
}

#[test]
fn new_code_block_is_empty() {
    let code = CodeBlock::new(Sym::MAIN, 2, true);
    assert_eq!(code.name(), Sym::MAIN);
    assert_eq!(code.length, 2);
    assert!(code.strict);
    assert!(!code.has_binding_identifier);
    assert_eq!(code.this_mode, ThisMode::Global);
    assert!(code.params.parameters.is_empty());
    assert!(code.bytecode.is_empty());
    assert!(code.literals.is_empty());
    assert!(code.names.is_empty());
    assert!(code.private_names.is_empty());
    assert!(code.bindings.is_empty());
    assert_eq!(code.num_bindings, 0);
    assert!(code.functions.is_empty());
    assert!(code.arguments_binding.is_none());
    assert!(code.compile_environments.is_empty());
    assert!(!code.is_class_constructor);
    assert!(code.class_field_initializer_name.is_none());
    assert_eq!(code.function_environment_push_location, 0);
    assert!(code.parameters_env_bindings.is_none());
    assert!(!code.trace);
}

#[test]
fn set_trace_changes_only_the_flag() {
    let mut code = CodeBlock::new(Sym::MAIN, 1, false);
    code.set_trace(true);
    assert!(code.trace);
    assert_eq!(code.length, 1);
    code.set_trace(false);
    assert!(!code.trace);
}

#[test]
fn operands_are_read_least_significant_byte_first() {
    let mut code = CodeBlock::new(Sym::MAIN, 0, false);
    code.bytecode = vec![0x01, 0x02, 0x03, 0x04, 0x05, 0x06, 0x07, 0x08, 0xff, 0x80];
    assert_eq!(code.read_u8(1), 0x02);
    assert_eq!(code.read_u8(9), 0x80);
    assert_eq!(code.read_i8(0), 1);
    assert_eq!(code.read_i8(8), -1);
    assert_eq!(code.read_i8(9), -128);
    assert_eq!(code.read_u16(0), 0x0201);
    assert_eq!(code.read_u16(8), 0x80ff);
    assert_eq!(code.read_i16(8), -32513);
    assert_eq!(code.read_i16(0), 0x0201);
    assert_eq!(code.read_u32(0), 0x0403_0201);
    assert_eq!(code.read_u32(6), 0x80ff_0807);
    assert_eq!(code.read_i32(6), 0x80ff_0807u32 as i32);
    assert_eq!(code.read_i32(1), 0x0504_0302);
    assert_eq!(code.read_u64(0), 0x0807_0605_0403_0201);
    assert_eq!(code.read_u64(2), 0x80ff_0807_0605_0403);
    assert_eq!(code.read_i64(2), 0x80ff_0807_0605_0403u64 as i64);
    assert_eq!(code.read_i64(0), 0x0807_0605_0403_0201);
    assert_eq!(code.read_u32(2), u32::from_le_bytes([3, 4, 5, 6]));
}

#[test]
fn formal_parameter_list_is_simple() {
    let mut context = Context::new();
    let mut list = FormalParameterList::new();
    assert!(list.is_simple());
    assert_eq!(list.len(), 0);
    list.parameters.push(parameter(&mut context, "a"));
    list.parameters.push(parameter(&mut context, "b"));
    assert!(list.is_simple());
    assert_eq!(list.len(), 2);
    let copy = list.duplicate();
    assert_eq!(copy.len(), 2);
    assert!(copy.parameters[1].name.same(&list.parameters[1].name));
    let mut with_default = list.duplicate();
    with_default.parameters[0].has_initializer = true;
    assert!(!with_default.is_simple());
    let mut with_rest = list.duplicate();
    with_rest.parameters[1].is_rest = true;
    assert!(!with_rest.is_simple());
    let mut with_pattern = list.duplicate();
    with_pattern.parameters[1].is_pattern = true;
    assert!(!with_pattern.is_simple());
}

#[test]
fn number_value_of_u32() {
    assert_eq!(JsValue::from_u32(0), JsValue::Integer(0));
    assert_eq!(JsValue::from_u32(7), JsValue::Integer(7));
    assert_eq!(JsValue::from_u32(0x7fff_ffff), JsValue::Integer(i32::MAX));
    assert_eq!(
        JsValue::from_u32(0x8000_0000),
        JsValue::Rational(2147483648.0f64.to_bits())
    );
    assert_eq!(
        JsValue::from_u32(u32::MAX),
        JsValue::Rational(4294967295.0f64.to_bits())
    );
    assert_eq!(
        JsValue::from_u32(3_000_000_001),
        JsValue::Rational(3000000001.0f64.to_bits())
    );
}

#[test]
fn value_predicates() {
    assert!(JsValue::undefined().is_undefined());
    assert!(JsValue::null().is_null());
    assert!(JsValue::Undefined.is_null_or_undefined());
    assert!(JsValue::Null.is_null_or_undefined());
    assert!(!JsValue::Integer(0).is_null_or_undefined());
    assert!(!JsValue::Null.is_undefined());
    let object = JsValue::Object(JsObject { index: 4 });
    assert!(object.is_object());
    assert_eq!(object.as_object(), Some(JsObject { index: 4 }));
    assert_eq!(JsValue::Integer(1).as_object(), None);
    assert_eq!(object.as_string(), None);
    let args = [JsValue::Integer(1), JsValue::Integer(2)];
    assert_eq!(get_or_undefined(&args, 1), JsValue::Integer(2));
    assert_eq!(get_or_undefined(&args, 2), JsValue::Undefined);
}

#[test]
fn call_frame_builders() {
    let frame = CallFrame::new(CodeBlockRef { index: 3 })
        .with_param_count(2)
        .with_arg_count(5);
    assert_eq!(frame.code_block, CodeBlockRef { index: 3 });
    assert_eq!(frame.pc, 0);
    assert_eq!(frame.param_count, 2);
    assert_eq!(frame.arg_count, 5);
    assert_eq!(frame.promise_capability, None);
    assert_eq!(frame.async_generator, None);
}
