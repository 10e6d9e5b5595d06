use rustretto::classfile::descriptors::{
    ArrayType, BaseType, FieldType, ObjectType, ParameterDescriptor, ReturnTypeDescriptor,
};
use rustretto::compiler::mangle::{
    mangle_field_name_getter, mangle_field_name_setter, mangle_method_name, mangle_method_name_with_hash,
    mangle_vtable_name,
};

#[test]
fn field_accessors() {
    assert_eq!(mangle_field_name_getter("java/lang/String", "value"), "_ZN4java4lang6String5valuev03getE");
    assert_eq!(mangle_field_name_setter("Foo", "x"), "_ZN3Foo1xv13setE");
}

#[test]
fn vtable_names_escape_separators() {
    assert_eq!(mangle_vtable_name("java/lang/Object"), "vtable.java_lang_Object");
    assert_eq!(mangle_vtable_name("a_b;[c.d"), "vtable.a_1b_2_3c_d");
}

#[test]
fn method_names_with_fixed_hash() {
    let params = vec![
        ParameterDescriptor::Field(FieldType::Base(BaseType::Int)),
        ParameterDescriptor::Field(FieldType::Array(ArrayType {
            component_type: Box::new(FieldType::Object(ObjectType { class_name: "java.lang.String".to_string() })),
        })),
    ];
    let r = mangle_method_name_with_hash("Foo", "bar", &ReturnTypeDescriptor::Void, &params, 0x1_2345_abcd);
    assert_eq!(r, "_ZN3Foo3barIu9J2345abcdEEviA_N4java4lang6StringE");
    let ctor = mangle_method_name_with_hash("a/B", "<init>", &ReturnTypeDescriptor::Void, &[], 0);
    assert_eq!(ctor, "_ZN1a1B4initIu9J00000000EEvv");
    let clinit = mangle_method_name_with_hash(
        "C",
        "<clinit>",
        &ReturnTypeDescriptor::Field(FieldType::Base(BaseType::Boolean)),
        &[],
        0xff,
    );
    assert_eq!(clinit, "_ZN1C6clinitIu9J000000ffEEu7booleanv");
}

#[test]
fn method_names_differ_only_in_hash() {
    let r = mangle_method_name("Foo", "bar", &ReturnTypeDescriptor::Void, &[]);
    assert!(r.starts_with("_ZN3Foo3barIu9J"));
    assert!(r.ends_with("EEvv"));
    assert_eq!(r.len(), "_ZN3Foo3barIu9J".len() + 8 + "EEvv".len());
    let again = mangle_method_name("Foo", "bar", &ReturnTypeDescriptor::Void, &[]);
    assert_eq!(r, again);
}

#[test]
fn names_are_measured_in_bytes() {
    assert_eq!(mangle_field_name_getter("é", "ü"), "_ZN2é2üv03getE");
    assert_eq!(mangle_field_name_getter("a//b", ""), "_ZN1a01b0v03getE");
}
