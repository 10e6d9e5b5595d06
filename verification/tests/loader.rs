use rustretto::classfile::class_file::ClassFile;
use rustretto::classfile::descriptors::{ArrayType, BaseType, FieldType, ObjectType};
use rustretto::classfile::error::ClassFileError;
use rustretto::compiler::loader::{array_class, class_source, component_file_name, ArrayClass, Class, ClassSource};

fn string_type() -> FieldType {
    FieldType::Object(ObjectType { class_name: "java.lang.String".to_string() })
}

fn array_of(t: FieldType) -> FieldType {
    FieldType::Array(ArrayType { component_type: Box::new(t) })
}

fn tiny_class() -> ClassFile {
    let mut b = vec![0xca, 0xfe, 0xba, 0xbe, 0x00, 0x00, 0x00, 0x34];
    b.extend_from_slice(&3u16.to_be_bytes());
    b.push(1);
    b.extend_from_slice(&16u16.to_be_bytes());
    b.extend_from_slice(b"java/lang/String");
    b.extend_from_slice(&[7, 0, 1]);
    b.extend_from_slice(&[0x00, 0x21, 0x00, 0x02, 0x00, 0x00]);
    b.extend_from_slice(&[0, 0, 0, 0, 0, 0, 0, 0]);
    ClassFile::parse(&b).expect("class file")
}

#[test]
fn plain_names_are_class_files() {
    assert!(matches!(class_source("java/lang/String"), Ok(ClassSource::File)));
    assert!(matches!(class_source(""), Ok(ClassSource::File)));
}

#[test]
fn bracket_names_are_array_classes() {
    match class_source("[I") {
        Ok(ClassSource::Array(t)) => assert_eq!(t, FieldType::Base(BaseType::Int)),
        other => panic!("unexpected {:?}", other),
    }
    match class_source("[[Ljava/lang/String;") {
        Ok(ClassSource::Array(t)) => assert_eq!(t, array_of(string_type())),
        other => panic!("unexpected {:?}", other),
    }
    assert_eq!(class_source("[Q").err(), Some(ClassFileError::UnknownDescriptorTag(b'Q')));
    assert_eq!(class_source("[").err(), Some(ClassFileError::UnexpectedEof));
}

#[test]
fn array_components_name_their_class_file() {
    assert_eq!(component_file_name(&string_type()), Some("java/lang/String".to_string()));
    assert_eq!(component_file_name(&array_of(string_type())), Some("java/lang/String".to_string()));
    assert_eq!(component_file_name(&array_of(FieldType::Base(BaseType::Long))), None);
}

#[test]
fn array_classes_nest_like_their_components() {
    assert!(matches!(array_class(&FieldType::Base(BaseType::Int), None), ArrayClass::Primitive(BaseType::Int)));
    match array_class(&array_of(string_type()), Some(tiny_class())) {
        ArrayClass::Complex(inner) => match *inner {
            Class::Array(ArrayClass::Complex(file)) => match *file {
                Class::File(cf) => assert_eq!(cf.constant_pool.get_utf8(cf.get_this_class().name_index), Some("java/lang/String")),
                other => panic!("unexpected {:?}", other),
            },
            other => panic!("unexpected {:?}", other),
        },
        other => panic!("unexpected {:?}", other),
    }
}
