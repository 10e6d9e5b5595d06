use rustretto::classfile::descriptors::{ArrayType, BaseType, FieldType, ObjectType};
use rustretto::compiler::frame::StackAndLocals;
use rustretto::compiler::translate::{BlockId, VarId, VarIdGen};
use rustretto::compiler::types::Type;

#[test]
fn new_long_and_double_occupy_wide_slots() {
    let mut gen = VarIdGen::new();
    let args = vec![
        gen.gen(Type::Long),
        gen.gen(Type::Integer),
        gen.gen(Type::Double),
        gen.gen(Type::Float),
    ];
    let frame = StackAndLocals::new(0, 6, &args);

    assert_eq!(frame.locals[&0], args[0]);
    assert_eq!(frame.locals[&2], args[1]);
    assert_eq!(frame.locals[&3], args[2]);
    assert_eq!(frame.locals[&5], args[3]);
}

#[test]
fn stack_operations_move_variables() {
    let mut gen = VarIdGen::new();
    let a = gen.gen(Type::Integer);
    let b = gen.gen(Type::Long);
    let mut frame = StackAndLocals::new(4, 4, &[a.clone()]);
    assert!(frame.stack.is_empty());
    frame.load(0);
    frame.push(b.clone());
    assert_eq!(frame.stack, vec![a.clone(), b.clone()]);
    frame.store(3);
    assert_eq!(frame.locals[&3], b);
    assert_eq!(frame.pop(), a);
    frame.push(a.clone());
    frame.push(b.clone());
    frame.push(a.clone());
    assert_eq!(frame.pop_n(2), vec![b.clone(), a.clone()]);
    assert_eq!(frame.stack, vec![a.clone()]);
}

#[test]
fn same_shape_renumbers_stack_then_locals() {
    let mut gen = VarIdGen::new();
    let a = gen.gen(Type::Integer);
    let b = gen.gen(Type::Double);
    let c = gen.gen(Type::Float);
    let mut frame = StackAndLocals::new(2, 4, &[a.clone(), b.clone()]);
    frame.push(c.clone());
    let shaped = frame.new_with_same_shape(&mut gen);
    assert_eq!(shaped.stack, vec![VarId(Type::Float, 3)]);
    assert_eq!(shaped.locals[&0], VarId(Type::Integer, 4));
    assert_eq!(shaped.locals[&1], VarId(Type::Double, 5));
    assert_eq!(shaped.locals.len(), 2);
    assert_eq!(gen.gen(Type::Top), VarId(Type::Top, 6));
}

#[test]
fn block_ids_wrap_around() {
    assert_eq!(BlockId::start(), BlockId(0));
    assert_eq!(BlockId::from_addr(17), BlockId(17));
    assert_eq!(BlockId::from_addr_with_offset(10, -4), BlockId(6));
    assert_eq!(BlockId::from_addr_with_offset(0, -1), BlockId(u32::MAX));
    assert_eq!(BlockId::from_addr_with_offset(u32::MAX, 1), BlockId(0));
}

#[test]
fn stack_types_of_field_types() {
    assert_eq!(Type::from_field_type(FieldType::Base(BaseType::Byte)), Type::Integer);
    assert_eq!(Type::from_field_type(FieldType::Base(BaseType::Double)), Type::Double);
    let string = Type::string();
    assert_eq!(
        Type::from_field_type(FieldType::Object(ObjectType { class_name: "java.lang.String".to_string() })),
        string
    );
    let array = FieldType::Array(ArrayType {
        component_type: Box::new(FieldType::Object(ObjectType { class_name: "java/lang/Object".to_string() })),
    });
    match Type::from_field_type(array) {
        Type::Object(c) => assert_eq!(c.string, "[Ljava/lang/Object;"),
        other => panic!("unexpected {:?}", other),
    }
}
