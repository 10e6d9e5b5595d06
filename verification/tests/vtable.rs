use rustretto::backend::vtable::VTableMap;
use rustretto::compiler::classes::ClassLookupError;
use rustretto::classfile::class_file::ClassFile;
use rustretto::classfile::descriptors::{
    BaseType, FieldType, MethodDescriptor, ObjectType, ReturnTypeDescriptor,
};

const PUBLIC: u16 = 0x0001;
const STATIC: u16 = 0x0008;
const INTERFACE: u16 = 0x0200;
const ABSTRACT: u16 = 0x0400;

struct Pool {
    bytes: Vec<u8>,
    count: u16,
}

impl Pool {
    fn utf8(&mut self, s: &str) -> u16 {
        self.bytes.push(1);
        self.bytes.extend_from_slice(&(s.len() as u16).to_be_bytes());
        self.bytes.extend_from_slice(s.as_bytes());
        self.count += 1;
        self.count
    }

    fn class(&mut self, name: &str) -> u16 {
        let n = self.utf8(name);
        self.bytes.push(7);
        self.bytes.extend_from_slice(&n.to_be_bytes());
        self.count += 1;
        self.count
    }
}

fn class_file(
    flags: u16,
    name: &str,
    super_name: Option<&str>,
    interfaces: &[&str],
    methods: &[(u16, &str, &str)],
) -> (String, ClassFile) {
    let mut pool = Pool { bytes: Vec::new(), count: 0 };
    let this = pool.class(name);
    let sup = super_name.map(|s| pool.class(s)).unwrap_or(0);
    let ifaces: Vec<u16> = interfaces.iter().map(|i| pool.class(i)).collect();
    let ms: Vec<(u16, u16, u16)> = methods
        .iter()
        .map(|(f, n, d)| (*f, pool.utf8(n), pool.utf8(d)))
        .collect();
    let mut b = vec![0xca, 0xfe, 0xba, 0xbe, 0x00, 0x00, 0x00, 0x34];
    b.extend_from_slice(&(pool.count + 1).to_be_bytes());
    b.extend_from_slice(&pool.bytes);
    b.extend_from_slice(&flags.to_be_bytes());
    b.extend_from_slice(&this.to_be_bytes());
    b.extend_from_slice(&sup.to_be_bytes());
    b.extend_from_slice(&(ifaces.len() as u16).to_be_bytes());
    for i in &ifaces {
        b.extend_from_slice(&i.to_be_bytes());
    }
    b.extend_from_slice(&0u16.to_be_bytes());
    b.extend_from_slice(&(ms.len() as u16).to_be_bytes());
    for (f, n, d) in &ms {
        b.extend_from_slice(&f.to_be_bytes());
        b.extend_from_slice(&n.to_be_bytes());
        b.extend_from_slice(&d.to_be_bytes());
        b.extend_from_slice(&0u16.to_be_bytes());
    }
    b.extend_from_slice(&0u16.to_be_bytes());
    (name.to_string(), ClassFile::parse(&b).expect("class file"))
}

fn object() -> (String, ClassFile) {
    class_file(
        PUBLIC,
        "java/lang/Object",
        None,
        &[],
        &[
            (PUBLIC, "<init>", "()V"),
            (PUBLIC, "hashCode", "()I"),
            (PUBLIC, "toString", "()Ljava/lang/String;"),
            (STATIC, "registerNatives", "()V"),
        ],
    )
}

fn runnable() -> (String, ClassFile) {
    class_file(
        PUBLIC | INTERFACE | ABSTRACT,
        "java/lang/Runnable",
        Some("java/lang/Object"),
        &[],
        &[(PUBLIC | ABSTRACT, "run", "()V")],
    )
}

fn foo() -> (String, ClassFile) {
    class_file(
        PUBLIC,
        "Foo",
        Some("java/lang/Object"),
        &["java/lang/Runnable"],
        &[
            (PUBLIC, "<init>", "()V"),
            (PUBLIC, "run", "()V"),
            (PUBLIC, "toString", "()Ljava/lang/String;"),
        ],
    )
}

fn bar() -> (String, ClassFile) {
    class_file(
        PUBLIC,
        "Bar",
        Some("Foo"),
        &[],
        &[(PUBLIC, "hashCode", "()I"), (PUBLIC, "extra", "()V")],
    )
}

fn void_method() -> MethodDescriptor {
    MethodDescriptor { params: vec![], ret: ReturnTypeDescriptor::Void }
}

fn int_method() -> MethodDescriptor {
    MethodDescriptor { params: vec![], ret: ReturnTypeDescriptor::Field(FieldType::Base(BaseType::Int)) }
}

fn string_method() -> MethodDescriptor {
    MethodDescriptor {
        params: vec![],
        ret: ReturnTypeDescriptor::Field(FieldType::Object(ObjectType {
            class_name: "java.lang.String".to_string(),
        })),
    }
}

fn slots(map: &VTableMap, name: &str) -> Vec<(String, String, usize, usize)> {
    let table = map.get(name).expect("vtable");
    (0..table.method_count())
        .map(|i| {
            let (key, target) = table.method(i);
            (
                key.method_name.clone(),
                target.class_name.clone(),
                target.method_index_lower,
                target.method_index_upper,
            )
        })
        .collect()
}

fn entry(m: &str, c: &str, lower: usize, upper: usize) -> (String, String, usize, usize) {
    (m.to_string(), c.to_string(), lower, upper)
}

#[test]
fn object_table_holds_its_instance_methods() {
    let map = VTableMap::new(vec![object()]);
    assert_eq!(
        slots(&map, "java/lang/Object"),
        vec![
            entry("hashCode", "java/lang/Object", 0, 0),
            entry("toString", "java/lang/Object", 1, 1),
        ]
    );
    assert_eq!(map.get("java/lang/Object").unwrap().interface_count(), 0);
}

#[test]
fn class_overrides_keep_their_slots() {
    let map = VTableMap::new(vec![object(), runnable(), foo(), bar()]);
    assert_eq!(
        slots(&map, "Foo"),
        vec![
            entry("hashCode", "java/lang/Object", 0, 0),
            entry("toString", "Foo", 1, 1),
            entry("run", "Foo", 2, 2),
        ]
    );
    let foo_table = map.get("Foo").unwrap();
    assert_eq!(foo_table.interface_count(), 1);
    assert_eq!(foo_table.interface(0), ("java/lang/Runnable", 2));
    assert_eq!(foo_table.get("run", &void_method()).unwrap().class_name, "Foo");
    assert!(foo_table.get("run", &int_method()).is_none());
    assert_eq!(foo_table.get("toString", &string_method()).unwrap().class_name, "Foo");
}

#[test]
fn subclass_table_starts_with_superclass_table() {
    let map = VTableMap::new(vec![object(), runnable(), foo(), bar()]);
    let foo_slots = slots(&map, "Foo");
    let bar_slots = slots(&map, "Bar");
    assert_eq!(bar_slots.len(), 4);
    for (i, (m, _, lower, _)) in foo_slots.iter().enumerate() {
        assert_eq!(&bar_slots[i].0, m);
        assert_eq!(bar_slots[i].2, *lower);
    }
    assert_eq!(bar_slots[0], entry("hashCode", "Bar", 0, 0));
    assert_eq!(bar_slots[3], entry("extra", "Bar", 3, 3));
    let bar_table = map.get("Bar").unwrap();
    assert_eq!(bar_table.get("hashCode", &int_method()).unwrap().class_name, "Bar");
    assert_eq!(bar_table.interface(0), ("java/lang/Runnable", 2));
}

#[test]
fn interface_implemented_by_superclass_is_not_added_again() {
    let baz = class_file(PUBLIC, "Baz", Some("Foo"), &["java/lang/Runnable"], &[]);
    let map = VTableMap::new(vec![object(), runnable(), foo(), baz]);
    let table = map.get("Baz").unwrap();
    assert_eq!(table.method_count(), 3);
    assert_eq!(table.interface_count(), 1);
    assert_eq!(table.interface(0), ("java/lang/Runnable", 2));
}

#[test]
fn interface_method_from_superclass_gets_a_new_slot() {
    let hashed = class_file(
        PUBLIC | INTERFACE | ABSTRACT,
        "Hashed",
        Some("java/lang/Object"),
        &[],
        &[(PUBLIC | ABSTRACT, "hashCode", "()I")],
    );
    let thing = class_file(PUBLIC, "Thing", Some("java/lang/Object"), &["Hashed"], &[]);
    let map = VTableMap::new(vec![object(), hashed, thing]);
    assert_eq!(
        slots(&map, "Thing"),
        vec![
            entry("hashCode", "java/lang/Object", 0, 2),
            entry("toString", "java/lang/Object", 1, 1),
            entry("hashCode", "java/lang/Object", 0, 2),
        ]
    );
    assert_eq!(map.get("Thing").unwrap().interface(0), ("Hashed", 2));
}

#[test]
fn interfaces_of_interfaces_are_recorded() {
    let go = class_file(
        PUBLIC | INTERFACE | ABSTRACT,
        "Go",
        Some("java/lang/Object"),
        &["java/lang/Runnable"],
        &[(PUBLIC | ABSTRACT, "go", "()V")],
    );
    let qux = class_file(PUBLIC, "Qux", Some("java/lang/Object"), &["Go"], &[]);
    let map = VTableMap::new(vec![object(), runnable(), go, qux]);
    assert_eq!(
        slots(&map, "Qux"),
        vec![
            entry("hashCode", "java/lang/Object", 0, 0),
            entry("toString", "java/lang/Object", 1, 1),
            entry("run", "java/lang/Runnable", 2, 2),
            entry("go", "Go", 3, 3),
        ]
    );
    let table = map.get("Qux").unwrap();
    assert_eq!(table.interface_count(), 2);
    assert_eq!(table.interface(0), ("java/lang/Runnable", 2));
    assert_eq!(table.interface(1), ("Go", 2));
}

#[test]
fn missing_classes_and_arrays_have_no_table() {
    let map = VTableMap::new(vec![foo()]);
    assert_eq!(map.get("[I").err(), Some(ClassLookupError::ArrayClass));
    assert_eq!(map.get("Nope").err(), Some(ClassLookupError::ClassNotFound));
    assert_eq!(map.get("Foo").err(), Some(ClassLookupError::ClassNotFound));
}
