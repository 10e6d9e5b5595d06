use rustretto::backend::common::{
    tlt_array_component_type, tlt_field_type, tlt_function_type, tlt_return_type, tlt_type, DestAssign,
    GenFunctionType,
    GenSizeOf, GenStringConst, OpVal, TmpVarIdGen,
};
use rustretto::classfile::descriptors::{
    BaseType, FieldType, MethodDescriptor, ObjectType, ParameterDescriptor, ReturnTypeDescriptor,
};
use rustretto::frontend::translate::{Const, Op, VarId};
use rustretto::frontend::types::Type;

#[test]
fn gen_string_const_alphanum() {
    let formatted = GenStringConst("foo123").to_string();
    assert_eq!(r#"c"foo123\00""#, formatted)
}

#[test]
fn gen_string_const_punctuation() {
    let formatted = GenStringConst("foo%&\\\"").to_string();
    assert_eq!(r#"c"foo%&\5c\22\00""#, formatted)
}

#[test]
fn gen_string_const_whitespace() {
    let formatted = GenStringConst("foo \t\n\r").to_string();
    assert_eq!(r#"c"foo \09\0a\0d\00""#, formatted)
}

#[test]
fn gen_string_const_unicode() {
    let formatted = GenStringConst("foo🔥").to_string();
    assert_eq!(r#"c"foo\f0\9f\94\a5\00""#, formatted)
}

#[test]
fn gen_string_const_empty_and_control_bytes() {
    assert_eq!(r#"c"\00""#, GenStringConst("").to_string());
    assert_eq!(r#"c"\7f~ \00""#, GenStringConst("\u{7f}~ ").to_string());
}

#[test]
fn llvm_types_of_descriptors() {
    assert_eq!(tlt_field_type(&FieldType::Base(BaseType::Boolean)), "i32");
    assert_eq!(tlt_field_type(&FieldType::Base(BaseType::Long)), "i64");
    assert_eq!(tlt_field_type(&FieldType::Base(BaseType::Float)), "float");
    assert_eq!(tlt_field_type(&FieldType::Base(BaseType::Double)), "double");
    assert_eq!(
        tlt_field_type(&FieldType::Object(ObjectType { class_name: "java.lang.Object".to_string() })),
        "%ref"
    );
    assert_eq!(tlt_return_type(&ReturnTypeDescriptor::Void), "void");
    assert_eq!(tlt_return_type(&ReturnTypeDescriptor::Field(FieldType::Base(BaseType::Int))), "i32");
}

#[test]
fn llvm_types_of_values_and_components() {
    assert_eq!(tlt_type(&Type::Byte), "i32");
    assert_eq!(tlt_type(&Type::Reference), "%ref");
    assert_eq!(tlt_array_component_type(&Type::Byte), "i8");
    assert_eq!(tlt_array_component_type(&Type::Short), "i16");
    assert_eq!(tlt_array_component_type(&Type::Reference), "%ref");
}

#[test]
fn function_type_lists_receiver_and_parameters() {
    let desc = MethodDescriptor {
        params: vec![
            ParameterDescriptor::Field(FieldType::Base(BaseType::Long)),
            ParameterDescriptor::Field(FieldType::Object(ObjectType { class_name: "A".to_string() })),
        ],
        ret: ReturnTypeDescriptor::Field(FieldType::Base(BaseType::Double)),
    };
    assert_eq!(GenFunctionType(&desc).to_string(), "double (%ref, i64, %ref)");
    let empty = MethodDescriptor { params: vec![], ret: ReturnTypeDescriptor::Void };
    assert_eq!(GenFunctionType(&empty).to_string(), "void (%ref)");
    assert_eq!(tlt_function_type(&desc), "double (%ref, i64, %ref)");
    assert_eq!(tlt_function_type(&empty), "void (%ref)");
}

#[test]
fn size_of_type() {
    assert_eq!(
        GenSizeOf("%Foo").to_string(),
        "ptrtoint (%Foo* getelementptr (%Foo, %Foo* null, i64 1) to i64)"
    );
}

#[test]
fn operand_values() {
    assert_eq!(OpVal(&Op::Var(VarId(Type::Int, 42))).to_string(), "%v42");
    assert_eq!(OpVal(&Op::Const(Const::Int(-7))).to_string(), "-7");
    assert_eq!(OpVal(&Op::Const(Const::Int(i32::MIN))).to_string(), "-2147483648");
    assert_eq!(OpVal(&Op::Const(Const::Long(i64::MIN))).to_string(), "-9223372036854775808");
    assert_eq!(OpVal(&Op::Const(Const::Long(1234567890123))).to_string(), "1234567890123");
    assert_eq!(OpVal(&Op::Const(Const::Null)).to_string(), "zeroinitializer");
}

#[test]
fn destinations_and_temporaries() {
    assert_eq!(DestAssign::Var(VarId(Type::Long, 3)).to_string(), "%v3");
    assert_eq!(DestAssign::Tmp(0).to_string(), "%t0");
    let mut gen = TmpVarIdGen::new();
    assert_eq!(gen.gen(), 0);
    assert_eq!(gen.gen(), 1);
    assert_eq!(DestAssign::Tmp(gen.gen()).to_string(), "%t2");
}
