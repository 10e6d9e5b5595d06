use rustretto::classfile::descriptors::{ArrayType, BaseType, FieldType, ObjectType};
use rustretto::classfile::error::ClassFileError;

#[test]
fn parses_field_descriptors() {
    assert_eq!(FieldType::try_from_str("I"), Ok(FieldType::Base(BaseType::Int)));
    assert_eq!(FieldType::try_from_str("Z"), Ok(FieldType::Base(BaseType::Boolean)));
    assert_eq!(
        FieldType::try_from_str("[[J"),
        Ok(FieldType::Array(ArrayType {
            component_type: Box::new(FieldType::Array(ArrayType {
                component_type: Box::new(FieldType::Base(BaseType::Long)),
            })),
        }))
    );
    assert_eq!(
        FieldType::try_from_str("Ljava/lang/String;trailing"),
        Ok(FieldType::Object(ObjectType { class_name: "java.lang.String".to_string() }))
    );
}

#[test]
fn refuses_bad_field_descriptors() {
    assert_eq!(FieldType::try_from_str(""), Err(ClassFileError::UnexpectedEof));
    assert_eq!(FieldType::try_from_str("Q"), Err(ClassFileError::UnknownDescriptorTag(b'Q')));
    assert_eq!(FieldType::try_from_str("Ljava/lang/String"), Err(ClassFileError::InvalidClassName));
    assert_eq!(FieldType::try_from_str("["), Err(ClassFileError::UnexpectedEof));
}

#[test]
fn descriptor_strings_read_back() {
    let types = vec![
        FieldType::Base(BaseType::Double),
        FieldType::Object(ObjectType { class_name: "a.b.Cé".to_string() }),
        FieldType::Array(ArrayType {
            component_type: Box::new(FieldType::Object(ObjectType { class_name: "x".to_string() })),
        }),
    ];
    for t in types {
        let s = t.to_string();
        assert_eq!(FieldType::try_from_str(&s), Ok(t));
    }
    assert_eq!(
        FieldType::Array(ArrayType { component_type: Box::new(FieldType::Base(BaseType::Char)) }).to_string(),
        "[C"
    );
}

#[test]
fn a_parsed_type_prints_to_text_that_parses_back_to_it() {
    for s in ["[[Ljava/lang/String;", "J", "Lfoo/Bar;rest", "[Z"] {
        let t = FieldType::try_from_str(s).unwrap();
        let printed = t.to_string();
        assert!(!printed.contains('/'));
        assert_eq!(FieldType::try_from_str(&printed), Ok(t));
    }
}
