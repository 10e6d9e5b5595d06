use rustretto::classfile::class_file::ClassFile;
use rustretto::classfile::descriptors::{BaseType, FieldType, ObjectType};
use rustretto::compiler::classes::ClassLookupError;
use rustretto::compiler::layout::FieldLayoutMap;

const PUBLIC: u16 = 0x0001;
const STATIC: u16 = 0x0008;

struct Pool {
    bytes: Vec<u8>,
    count: u16,
}

impl Pool {
    fn utf8(&mut self, s: &str) -> u16 {
        self.bytes.push(1);
        self.bytes.extend_from_slice(&(s.len() as u16).to_be_bytes());
        self.bytes.extend_from_slice(s.as_bytes());
        self.count += 1;
        self.count
    }

    fn class(&mut self, name: &str) -> u16 {
        let n = self.utf8(name);
        self.bytes.push(7);
        self.bytes.extend_from_slice(&n.to_be_bytes());
        self.count += 1;
        self.count
    }
}

fn class_with_fields(
    name: &str,
    super_name: Option<&str>,
    fields: &[(u16, &str, &str)],
) -> (String, ClassFile) {
    let mut pool = Pool { bytes: Vec::new(), count: 0 };
    let this = pool.class(name);
    let sup = super_name.map(|s| pool.class(s)).unwrap_or(0);
    let fs: Vec<(u16, u16, u16)> = fields
        .iter()
        .map(|(f, n, d)| (*f, pool.utf8(n), pool.utf8(d)))
        .collect();
    let mut b = vec![0xca, 0xfe, 0xba, 0xbe, 0x00, 0x00, 0x00, 0x34];
    b.extend_from_slice(&(pool.count + 1).to_be_bytes());
    b.extend_from_slice(&pool.bytes);
    b.extend_from_slice(&PUBLIC.to_be_bytes());
    b.extend_from_slice(&this.to_be_bytes());
    b.extend_from_slice(&sup.to_be_bytes());
    b.extend_from_slice(&0u16.to_be_bytes());
    b.extend_from_slice(&(fs.len() as u16).to_be_bytes());
    for (f, n, d) in &fs {
        b.extend_from_slice(&f.to_be_bytes());
        b.extend_from_slice(&n.to_be_bytes());
        b.extend_from_slice(&d.to_be_bytes());
        b.extend_from_slice(&0u16.to_be_bytes());
    }
    b.extend_from_slice(&0u16.to_be_bytes());
    b.extend_from_slice(&0u16.to_be_bytes());
    (name.to_string(), ClassFile::parse(&b).expect("class file"))
}

fn classes() -> Vec<(String, ClassFile)> {
    vec![
        class_with_fields("java/lang/Object", None, &[]),
        class_with_fields(
            "Point",
            Some("java/lang/Object"),
            &[(PUBLIC, "x", "I"), (PUBLIC, "y", "I"), (PUBLIC | STATIC, "ORIGIN", "LPoint;")],
        ),
        class_with_fields(
            "Point3",
            Some("Point"),
            &[(PUBLIC, "z", "I"), (PUBLIC, "x", "J"), (PUBLIC, "y", "I"), (PUBLIC, "label", "Ljava/lang/String;")],
        ),
    ]
}

fn int_type() -> FieldType {
    FieldType::Base(BaseType::Int)
}

fn names(map: &FieldLayoutMap, name: &str) -> Vec<String> {
    let layout = map.get(name).expect("layout");
    (0..layout.len()).map(|i| layout.key(i).field_name.clone()).collect()
}

#[test]
fn object_has_no_fields() {
    let map = FieldLayoutMap::new(classes());
    assert_eq!(map.get("java/lang/Object").unwrap().len(), 0);
}

#[test]
fn static_fields_take_no_place() {
    let map = FieldLayoutMap::new(classes());
    assert_eq!(names(&map, "Point"), vec!["x", "y"]);
    let layout = map.get("Point").unwrap();
    assert_eq!(layout.get("x", &int_type()), Some(0));
    assert_eq!(layout.get("y", &int_type()), Some(1));
    assert_eq!(
        layout.get("ORIGIN", &FieldType::Object(ObjectType { class_name: "Point".to_string() })),
        None
    );
}

#[test]
fn subclass_fields_follow_superclass_fields() {
    let map = FieldLayoutMap::new(classes());
    assert_eq!(names(&map, "Point3"), vec!["x", "y", "z", "x", "label"]);
    let layout = map.get("Point3").unwrap();
    assert_eq!(layout.get("x", &int_type()), Some(0));
    assert_eq!(layout.get("y", &int_type()), Some(1));
    assert_eq!(layout.get("x", &FieldType::Base(BaseType::Long)), Some(3));
    assert_eq!(
        layout.get("label", &FieldType::Object(ObjectType { class_name: "java.lang.String".to_string() })),
        Some(4)
    );
    assert_eq!(layout.get("w", &int_type()), None);
    assert_eq!(layout.key(2).field_type, int_type());
}

#[test]
fn layouts_of_missing_classes_and_arrays_fail() {
    let map = FieldLayoutMap::new(classes());
    assert_eq!(map.get("[LPoint;").err(), Some(ClassLookupError::ArrayClass));
    assert_eq!(map.get("Line").err(), Some(ClassLookupError::ClassNotFound));
    let orphan = FieldLayoutMap::new(vec![class_with_fields("Orphan", Some("Gone"), &[])]);
    assert_eq!(orphan.get("Orphan").err(), Some(ClassLookupError::ClassNotFound));
}
