use rustretto::classfile::access_flags::{ACC_PUBLIC, ACC_STATIC};
use rustretto::classfile::attrs::code::Code;
use rustretto::classfile::class_file::ClassFile;
use rustretto::classfile::constant_pool::{Constant, ConstantIndex};
use rustretto::classfile::descriptors::{
    ArrayType, BaseType, FieldType, ObjectType, ParameterDescriptor, ReturnTypeDescriptor,
};
use rustretto::classfile::error::ClassFileError;
use rustretto::classfile::instructions::{Disassembler, Instr};
use rustretto::javap::{
    constant_is_formattable, format_constant, format_field_type, format_instr, format_method,
    instr_is_formattable,
};

fn u16be(v: u16) -> [u8; 2] {
    v.to_be_bytes()
}

fn utf8(out: &mut Vec<u8>, s: &str) {
    out.push(1);
    out.extend_from_slice(&u16be(s.len() as u16));
    out.extend_from_slice(s.as_bytes());
}

fn code_attribute(out: &mut Vec<u8>, name_index: u16, code: &[u8]) {
    out.extend_from_slice(&u16be(name_index));
    let len = 2 + 2 + 4 + code.len() + 2 + 2;
    out.extend_from_slice(&(len as u32).to_be_bytes());
    out.extend_from_slice(&u16be(2));
    out.extend_from_slice(&u16be(1));
    out.extend_from_slice(&(code.len() as u32).to_be_bytes());
    out.extend_from_slice(code);
    out.extend_from_slice(&u16be(0));
    out.extend_from_slice(&u16be(0));
}

const INIT_CODE: [u8; 5] = [0x2a, 0xb7, 0x00, 0x0b, 0xb1];
const MAIN_CODE: [u8; 6] = [0xb2, 0x00, 0x11, 0x12, 0x13, 0xb1];

fn sample_class() -> Vec<u8> {
    let mut b = vec![0xca, 0xfe, 0xba, 0xbe, 0x00, 0x00, 0x00, 0x34];
    b.extend_from_slice(&u16be(21));
    utf8(&mut b, "Foo"); // 1
    b.extend_from_slice(&[7, 0, 1]); // 2 class Foo
    utf8(&mut b, "java/lang/Object"); // 3
    b.extend_from_slice(&[7, 0, 3]); // 4 class Object
    utf8(&mut b, "<init>"); // 5
    utf8(&mut b, "()V"); // 6
    utf8(&mut b, "Code"); // 7
    utf8(&mut b, "main"); // 8
    utf8(&mut b, "([Ljava/lang/String;)V"); // 9
    b.extend_from_slice(&[12, 0, 5, 0, 6]); // 10 name and type
    b.extend_from_slice(&[10, 0, 4, 0, 10]); // 11 method ref
    utf8(&mut b, "out"); // 12
    utf8(&mut b, "Ljava/io/PrintStream;"); // 13
    b.extend_from_slice(&[12, 0, 12, 0, 13]); // 14 name and type
    utf8(&mut b, "java/lang/System"); // 15
    b.extend_from_slice(&[7, 0, 15]); // 16 class System
    b.extend_from_slice(&[9, 0, 16, 0, 14]); // 17 field ref
    utf8(&mut b, "hi"); // 18
    b.extend_from_slice(&[8, 0, 18]); // 19 string
    b.extend_from_slice(&[3, 0, 0, 0, 42]); // 20 integer
    b.extend_from_slice(&u16be(0x0021));
    b.extend_from_slice(&u16be(2));
    b.extend_from_slice(&u16be(4));
    b.extend_from_slice(&u16be(0)); // interfaces
    b.extend_from_slice(&u16be(0)); // fields
    b.extend_from_slice(&u16be(2)); // methods
    b.extend_from_slice(&u16be(0x0001));
    b.extend_from_slice(&u16be(5));
    b.extend_from_slice(&u16be(6));
    b.extend_from_slice(&u16be(1));
    code_attribute(&mut b, 7, &INIT_CODE);
    b.extend_from_slice(&u16be(0x0009));
    b.extend_from_slice(&u16be(8));
    b.extend_from_slice(&u16be(9));
    b.extend_from_slice(&u16be(1));
    code_attribute(&mut b, 7, &MAIN_CODE);
    b.extend_from_slice(&u16be(0)); // class attributes
    b
}

#[test]
fn parses_a_class_file() {
    let bytes = sample_class();
    let cf = ClassFile::parse(&bytes).expect("class file");
    assert_eq!(cf.version.major, 0x34);
    assert_eq!(cf.version.minor, 0);
    assert!(cf.access_flags.contains(ACC_PUBLIC));
    let this = cf.get_this_class();
    assert_eq!(cf.constant_pool.get_utf8(this.name_index), Some("Foo"));
    let sup = cf.get_super_class().expect("super class");
    assert_eq!(cf.constant_pool.get_utf8(sup.name_index), Some("java/lang/Object"));
    assert_eq!(cf.methods.len(), 2);
    assert!(cf.methods[1].access_flags.contains(ACC_STATIC));
    let main = &cf.methods[1].descriptor;
    assert_eq!(main.ret, ReturnTypeDescriptor::Void);
    assert_eq!(
        main.params,
        vec![ParameterDescriptor::Field(FieldType::Array(ArrayType {
            component_type: Box::new(FieldType::Object(ObjectType { class_name: "java.lang.String".to_string() })),
        }))]
    );
    match cf.constant_pool.get_info(ConstantIndex::from_u16(20)) {
        Some(Constant::Integer(i)) => assert_eq!(i.value, 42),
        other => panic!("unexpected {:?}", other),
    }
    assert!(cf.constant_pool.get_info(ConstantIndex::from_u16(0)).is_none());
    assert!(cf.constant_pool.get_info(ConstantIndex::from_u16(21)).is_none());
}

#[test]
fn truncated_class_files_are_refused() {
    let bytes = sample_class();
    assert_eq!(ClassFile::parse(&bytes[..3]).err(), Some(ClassFileError::UnexpectedEof));
    assert_eq!(ClassFile::parse(&bytes[..bytes.len() - 1]).err(), Some(ClassFileError::UnexpectedEof));
    let mut bad = bytes.clone();
    bad[10] = 99; // tag of the first constant
    assert_eq!(ClassFile::parse(&bad).err(), Some(ClassFileError::UnknownConstantTag(99)));
}

#[test]
fn magic_is_compared_in_native_byte_order() {
    let mut bytes = sample_class();
    let native = 0xCAFEBABEu32.to_ne_bytes();
    bytes[..4].copy_from_slice(&native);
    assert_eq!(ClassFile::parse(&bytes).err(), Some(ClassFileError::UnknownMagic));
    assert!(ClassFile::parse_with_magic(&bytes, 0xCAFEBABE).is_err());
    assert!(ClassFile::parse_with_magic(&bytes, 0).is_ok());
}

#[test]
fn code_attributes_decode_and_disassemble() {
    let bytes = sample_class();
    let cf = ClassFile::parse(&bytes).unwrap();
    let raw = cf.methods[0].attributes.get_raw("Code").expect("code attribute");
    let code = Code::decode(&raw, &cf.constant_pool).expect("code");
    assert_eq!(code.max_stack, 2);
    assert_eq!(code.max_locals, 1);
    assert_eq!(code.code, INIT_CODE.to_vec());
    let mut d = code.disassemble();
    assert_eq!(d.decode_next(), Ok(Some((0, Instr::ALoad0))));
    assert_eq!(d.decode_next(), Ok(Some((1, Instr::InvokeSpecial(11)))));
    assert_eq!(d.decode_next(), Ok(Some((4, Instr::Return))));
    assert_eq!(d.decode_next(), Ok(None));
    assert!(code.exception_handlers().next().is_none());
    assert!(cf.methods[0].attributes.get_raw("LineNumberTable").is_none());
}

#[test]
fn javap_formats_constants_and_instructions() {
    let bytes = sample_class();
    let cf = ClassFile::parse(&bytes).unwrap();
    let pool = &cf.constant_pool;
    assert_eq!(format_constant(11, pool, &[]), "Method java/lang/Object.\"<init>\":()V");
    assert_eq!(format_constant(17, pool, &[]), "Field java/lang/System.out:Ljava/io/PrintStream;");
    assert_eq!(format_constant(19, pool, &[]), "String hi");
    assert_eq!(format_instr(0, &Instr::ALoad0, pool, &[]), "aload_0");
    assert_eq!(
        format_instr(1, &Instr::InvokeSpecial(11), pool, &[]),
        "invokespecial #11                 // Method java/lang/Object.\"<init>\":()V"
    );
    assert_eq!(
        format_instr(3, &Instr::LdC(19), pool, &[]),
        "ldc           #19                 // String hi"
    );
    assert_eq!(format_instr(10, &Instr::IfEq(-4), pool, &[]), "ifeq          6");
    assert_eq!(format_instr(0, &Instr::Dup, pool, &[]), "Dup");
    assert_eq!(format_instr(0, &Instr::TableSwitch(8, 0, 1, vec![4, 6]), pool, &[]), "TableSwitch(8, 0, 1, [4, 6])");
}

#[test]
fn javap_checks_what_it_can_format() {
    let bytes = sample_class();
    let cf = ClassFile::parse(&bytes).unwrap();
    let pool = &cf.constant_pool;
    assert!(constant_is_formattable(pool, 11));
    assert!(constant_is_formattable(pool, 19));
    assert!(!constant_is_formattable(pool, 0));
    assert!(!constant_is_formattable(pool, 4000));
    assert!(instr_is_formattable(pool, &Instr::LdC(19)));
    assert!(instr_is_formattable(pool, &Instr::Dup));
    assert!(!instr_is_formattable(pool, &Instr::InvokeSpecial(0)));
}

#[test]
fn javap_formats_methods_and_types() {
    let bytes = sample_class();
    let cf = ClassFile::parse(&bytes).unwrap();
    let mut out = String::new();
    format_method("Foo", &cf.methods[0], &cf.constant_pool, &mut out);
    assert_eq!(out, "public Foo();");
    let mut out = String::new();
    format_method("Foo", &cf.methods[1], &cf.constant_pool, &mut out);
    assert_eq!(out, "public static void main(java.lang.String[]);");
    let mut out = String::new();
    format_field_type(
        &FieldType::Array(ArrayType { component_type: Box::new(FieldType::Base(BaseType::Long)) }),
        &mut out,
    );
    assert_eq!(out, "long[]");
}

#[test]
fn disassembler_reports_unknown_and_truncated_instructions() {
    let mut d = Disassembler::new(vec![0xfe, 0x10]);
    assert_eq!(d.decode_next(), Err(ClassFileError::UnknownOpcode(0xfe)));
    assert_eq!(d.position(), 1);
    assert_eq!(d.decode_next(), Err(ClassFileError::UnexpectedEof));
    let mut w = Disassembler::new(vec![0xc4, 0x15, 0x01, 0x00, 0xc4, 0x99]);
    assert_eq!(w.decode_next(), Ok(Some((0, Instr::WideILoad(256)))));
    assert_eq!(w.decode_next(), Err(ClassFileError::UnknownWideOpcode(0x99)));
}

fn class_with_raw_utf8(raw: &[u8]) -> Vec<u8> {
    let mut b = vec![0xca, 0xfe, 0xba, 0xbe, 0x00, 0x00, 0x00, 0x34];
    b.extend_from_slice(&u16be(4));
    utf8(&mut b, "Foo"); // 1
    b.extend_from_slice(&[7, 0, 1]); // 2 class Foo
    b.push(1); // 3 the string under test
    b.extend_from_slice(&u16be(raw.len() as u16));
    b.extend_from_slice(raw);
    b.extend_from_slice(&u16be(0x0021));
    b.extend_from_slice(&u16be(2));
    b.extend_from_slice(&u16be(0));
    b.extend_from_slice(&[0, 0, 0, 0, 0, 0, 0, 0]);
    b
}

#[test]
fn strings_are_read_as_java_modified_utf8() {
    let nul = ClassFile::parse(&class_with_raw_utf8(&[0x61, 0xc0, 0x80, 0x62])).unwrap();
    assert_eq!(nul.constant_pool.get_utf8(ConstantIndex::from_u16(3)), Some("a\u{0}b"));
    let pair = ClassFile::parse(&class_with_raw_utf8(&[0xed, 0xa0, 0xbd, 0xed, 0xb8, 0x80])).unwrap();
    assert_eq!(pair.constant_pool.get_utf8(ConstantIndex::from_u16(3)), Some("\u{1F600}"));
    let plain = ClassFile::parse(&class_with_raw_utf8("héllo".as_bytes())).unwrap();
    assert_eq!(plain.constant_pool.get_utf8(ConstantIndex::from_u16(3)), Some("héllo"));
    assert_eq!(
        ClassFile::parse(&class_with_raw_utf8(&[0x61, 0xff])).err(),
        Some(ClassFileError::InvalidJavaCesu8)
    );
}

#[test]
fn checked_reading_refuses_only_what_would_stop_the_reader() {
    let bytes = sample_class();
    assert!(ClassFile::class_file_ok(&bytes));
    assert!(matches!(ClassFile::parse_checked(&bytes), Some(Ok(_))));
    let mut zero_pool = vec![0xca, 0xfe, 0xba, 0xbe, 0x00, 0x00, 0x00, 0x34, 0x00, 0x00];
    zero_pool.extend_from_slice(&[0; 16]);
    assert!(!ClassFile::class_file_ok(&zero_pool));
    assert!(ClassFile::parse_checked(&zero_pool).is_none());
    let cf = ClassFile::parse(&bytes).unwrap();
    let raw = cf.methods[0].attributes.get_raw("Code").expect("code attribute");
    assert!(Code::names_known(&raw, &cf.constant_pool));
    assert!(matches!(Code::decode_checked(&raw, &cf.constant_pool), Some(Ok(_))));
}

#[test]
fn checked_reading_refuses_an_unknown_attribute_name() {
    let mut b = vec![0xca, 0xfe, 0xba, 0xbe, 0x00, 0x00, 0x00, 0x34];
    b.extend_from_slice(&u16be(3));
    utf8(&mut b, "Foo"); // 1
    b.extend_from_slice(&[7, 0, 1]); // 2 class Foo
    b.extend_from_slice(&u16be(0x0021));
    b.extend_from_slice(&u16be(2));
    b.extend_from_slice(&u16be(0));
    b.extend_from_slice(&u16be(0)); // interfaces
    b.extend_from_slice(&u16be(0)); // fields
    b.extend_from_slice(&u16be(0)); // methods
    b.extend_from_slice(&u16be(1)); // one class attribute
    b.extend_from_slice(&u16be(9)); // whose name index is not in the pool
    b.extend_from_slice(&0u32.to_be_bytes());
    assert!(!ClassFile::class_file_ok(&b));
    assert!(ClassFile::parse_checked(&b).is_none());
}
