use rustretto::classfile::attrs::code::Code;
use rustretto::classfile::attrs::stack_map_table::{StackMapTable, StackMapTableEntry, VerificationTypeInfo};
use rustretto::classfile::class_file::ClassFile;
use rustretto::classfile::constant_pool::Utf8Constant;

fn u16be(v: u16) -> [u8; 2] {
    v.to_be_bytes()
}

fn utf8(out: &mut Vec<u8>, s: &str) {
    out.push(1);
    out.extend_from_slice(&u16be(s.len() as u16));
    out.extend_from_slice(s.as_bytes());
}

/// A class with one method whose code carries a stack map table.
fn class_with_stack_map(frames: &[u8], count: u16) -> Vec<u8> {
    let mut b = vec![0xca, 0xfe, 0xba, 0xbe, 0x00, 0x00, 0x00, 0x34];
    b.extend_from_slice(&u16be(9));
    utf8(&mut b, "Foo"); // 1
    b.extend_from_slice(&[7, 0, 1]); // 2 class Foo
    utf8(&mut b, "java/lang/Object"); // 3
    b.extend_from_slice(&[7, 0, 3]); // 4 class Object
    utf8(&mut b, "m"); // 5
    utf8(&mut b, "()V"); // 6
    utf8(&mut b, "Code"); // 7
    utf8(&mut b, "StackMapTable"); // 8
    b.extend_from_slice(&u16be(0x0021));
    b.extend_from_slice(&u16be(2));
    b.extend_from_slice(&u16be(4));
    b.extend_from_slice(&u16be(0));
    b.extend_from_slice(&u16be(0));
    b.extend_from_slice(&u16be(1));
    b.extend_from_slice(&u16be(0x0009));
    b.extend_from_slice(&u16be(5));
    b.extend_from_slice(&u16be(6));
    b.extend_from_slice(&u16be(1));
    let code = [0xb1u8];
    let table_len = 2 + frames.len();
    let code_len = 2 + 2 + 4 + code.len() + 2 + 2 + (2 + 4 + table_len);
    b.extend_from_slice(&u16be(7));
    b.extend_from_slice(&(code_len as u32).to_be_bytes());
    b.extend_from_slice(&u16be(1));
    b.extend_from_slice(&u16be(1));
    b.extend_from_slice(&(code.len() as u32).to_be_bytes());
    b.extend_from_slice(&code);
    b.extend_from_slice(&u16be(0));
    b.extend_from_slice(&u16be(1));
    b.extend_from_slice(&u16be(8));
    b.extend_from_slice(&(table_len as u32).to_be_bytes());
    b.extend_from_slice(&u16be(count));
    b.extend_from_slice(frames);
    b.extend_from_slice(&u16be(0));
    b
}

fn object(name: &str) -> VerificationTypeInfo {
    VerificationTypeInfo::Object(Utf8Constant { string: String::from(name) })
}

#[test]
fn stack_map_frames_name_the_classes_of_object_types() {
    let frames = [
        67, 7, 0, 4, // same locals, one stack item: an object of class #4
        255, 0, 2, 0, 1, 1, 0, 1, 7, 0, 2, // full frame: an int local, an object of class #2 on the stack
        5, // same frame
    ];
    let bytes = class_with_stack_map(&frames, 3);
    let cf = ClassFile::parse(&bytes).expect("class file");
    let raw = cf.methods[0].attributes.get_raw("Code").expect("code attribute");
    let code = Code::decode(&raw, &cf.constant_pool).expect("code");
    let raw_table = code.attributes.get_raw("StackMapTable").expect("stack map table");
    let table = StackMapTable::decode(&raw_table, &cf.constant_pool).expect("table");
    assert_eq!(table.len(), 3);
    let mut entries = table.entries();
    assert!(entries.next_resolvable());
    assert_eq!(
        entries.next(),
        Some(Ok(StackMapTableEntry::SameLocals1StackItem { offset_delta: 3, stack_item: object("java/lang/Object") }))
    );
    assert!(entries.next_resolvable());
    assert_eq!(
        entries.next(),
        Some(Ok(StackMapTableEntry::FullFrame {
            offset_delta: 2,
            locals: vec![VerificationTypeInfo::Integer],
            stack_items: vec![object("Foo")],
        }))
    );
    assert_eq!(entries.next(), Some(Ok(StackMapTableEntry::SameFrame { offset_delta: 5 })));
    assert_eq!(entries.next(), None);
    assert_eq!(entries.next(), None);
}

#[test]
fn a_frame_naming_a_missing_class_is_not_resolvable() {
    // An object whose class index names a UTF-8 entry, not a class.
    let frames = [67, 7, 0, 3];
    let bytes = class_with_stack_map(&frames, 1);
    let cf = ClassFile::parse(&bytes).expect("class file");
    let raw = cf.methods[0].attributes.get_raw("Code").expect("code attribute");
    let code = Code::decode(&raw, &cf.constant_pool).expect("code");
    let raw_table = code.attributes.get_raw("StackMapTable").expect("stack map table");
    let table = StackMapTable::decode(&raw_table, &cf.constant_pool).expect("table");
    let entries = table.entries();
    assert!(!entries.next_resolvable());
}
