//! A whole class file (JVM specification, chapter 4).
use vstd::prelude::*;
use vstd::string::StringSliceAdditionalSpecFns;
use vstd::utf8::encode_utf8;
use crate::classfile::error::ClassFileError;
use crate::classfile::buffer::{agrees, read_u16, read_native_u32, spec_u16, be32, le32};
use crate::classfile::constant_pool::{
    ClassConstant, Constant, ConstantIndex, ConstantPool, SpecConstant, spec_index, spec_constant_pool,
    spec_get_utf8, spec_get_class, spec_get_info, spec_get_name_and_type,
};
use crate::classfile::access_flags::{
    ClassAccessFlags, FieldAccessFlags, MethodAccessFlags, ACC_INTERFACE, ACC_STATIC, CLASS_FLAG_BITS,
    FIELD_FLAG_BITS, METHOD_FLAG_BITS,
};
use crate::classfile::attrs::{Attributes, SpecAttributes, spec_attributes, spec_attributes_names_known, attributes_names_known};
use crate::classfile::descriptors::{
    FieldType, MethodDescriptor, SpecMethodDescriptor, SpecFieldType, spec_parse_method_descriptor,
    spec_parse_field_type,
};

verus! {

/// The class file format version.
#[derive(Clone, Copy, Debug, PartialEq, Eq, Structural)]
pub struct Version {
    pub major: u16,
    pub minor: u16,
}

#[derive(Debug)]
pub struct Field {
    pub access_flags: FieldAccessFlags,
    pub name_index: ConstantIndex,
    pub descriptor_index: ConstantIndex,
    pub attributes: Attributes,
}

#[derive(Debug)]
pub struct Method {
    pub access_flags: MethodAccessFlags,
    pub name_index: ConstantIndex,
    pub descriptor: MethodDescriptor,
    pub attributes: Attributes,
}

/// A reference to a method: its class, name and descriptor.
#[derive(Debug)]
pub struct MethodRef {
    pub class_index: ConstantIndex,
    pub name_index: ConstantIndex,
    pub descriptor: MethodDescriptor,
}

/// A reference to a field: its class, name and type.
#[derive(Debug)]
pub struct FieldRef {
    pub class_index: ConstantIndex,
    pub name_index: ConstantIndex,
    pub descriptor: FieldType,
}

#[derive(Debug)]
pub struct ClassFile {
    pub version: Version,
    pub constant_pool: ConstantPool,
    pub access_flags: ClassAccessFlags,
    pub this_class: ConstantIndex,
    pub super_class: Option<ConstantIndex>,
    pub interfaces: Vec<ConstantIndex>,
    pub fields: Vec<Field>,
    pub methods: Vec<Method>,
    pub attributes: Attributes,
}

pub struct SpecField {
    pub access_flags: FieldAccessFlags,
    pub name_index: ConstantIndex,
    pub descriptor_index: ConstantIndex,
    pub attributes: SpecAttributes,
}

pub struct SpecMethod {
    pub access_flags: MethodAccessFlags,
    pub name_index: ConstantIndex,
    pub descriptor: SpecMethodDescriptor,
    pub attributes: SpecAttributes,
}

pub struct SpecMethodRef {
    pub class_index: ConstantIndex,
    pub name_index: ConstantIndex,
    pub descriptor: SpecMethodDescriptor,
}

pub struct SpecFieldRef {
    pub class_index: ConstantIndex,
    pub name_index: ConstantIndex,
    pub descriptor: SpecFieldType,
}

/// The mathematical value of a class file.
pub struct SpecClassFile {
    pub version: Version,
    pub constant_pool: Seq<SpecConstant>,
    pub access_flags: ClassAccessFlags,
    pub this_class: ConstantIndex,
    pub super_class: Option<ConstantIndex>,
    pub interfaces: Seq<ConstantIndex>,
    pub fields: Seq<SpecField>,
    pub methods: Seq<SpecMethod>,
    pub attributes: SpecAttributes,
}

/// The field that a field-reference entry names: its class, its name, and its
/// type read from the descriptor.
pub open spec fn spec_get_field_ref(pool: Seq<SpecConstant>, idx: ConstantIndex) -> Option<
    SpecFieldRef,
> {
    match spec_get_info(pool, idx) {
        Some(SpecConstant::FieldRef(c)) => match spec_get_name_and_type(pool, c.name_and_type_index) {
            Some(nt) => match spec_get_utf8(pool, nt.descriptor_index) {
                Some(d) => match spec_parse_field_type(encode_utf8(d), 0) {
                    Ok((t, _)) => Some(
                        SpecFieldRef { class_index: c.class_index, name_index: nt.name_index, descriptor: t },
                    ),
                    Err(_) => None,
                },
                None => None,
            },
            None => None,
        },
        _ => None,
    }
}

/// The method that a method-reference entry names: its class, its name, and its
/// descriptor.
pub open spec fn spec_get_method_ref(pool: Seq<SpecConstant>, idx: ConstantIndex) -> Option<
    SpecMethodRef,
> {
    match spec_get_info(pool, idx) {
        Some(SpecConstant::MethodRef(c)) => match spec_get_name_and_type(pool, c.name_and_type_index) {
            Some(nt) => match spec_get_utf8(pool, nt.descriptor_index) {
                Some(d) => match spec_parse_method_descriptor(encode_utf8(d), 0) {
                    Ok((m, _)) => Some(
                        SpecMethodRef { class_index: c.class_index, name_index: nt.name_index, descriptor: m },
                    ),
                    Err(_) => None,
                },
                None => None,
            },
            None => None,
        },
        _ => None,
    }
}

impl ConstantPool {
    /// The field named by the field-reference entry at an index.
    pub fn get_field_ref(&self, idx: ConstantIndex) -> (r: Option<FieldRef>)
        ensures
            match spec_get_field_ref(self@, idx) {
                Some(f) => r matches Some(x) && x@ == f,
                None => r is None,
            },
    {
        match self.get_info(idx) {
            Some(Constant::FieldRef(c)) => match self.get_name_and_type(c.name_and_type_index) {
                Some(nt) => match self.get_utf8(nt.descriptor_index) {
                    Some(d) => match FieldType::try_from_str(d) {
                        Ok(t) => Some(FieldRef { class_index: c.class_index, name_index: nt.name_index, descriptor: t }),
                        Err(_) => None,
                    },
                    None => None,
                },
                None => None,
            },
            _ => None,
        }
    }

    /// The method named by the method-reference entry at an index.
    pub fn get_method_ref(&self, idx: ConstantIndex) -> (r: Option<MethodRef>)
        ensures
            match spec_get_method_ref(self@, idx) {
                Some(m) => r matches Some(x) && x@ == m,
                None => r is None,
            },
    {
        match self.get_info(idx) {
            Some(Constant::MethodRef(c)) => match self.get_name_and_type(c.name_and_type_index) {
                Some(nt) => match self.get_utf8(nt.descriptor_index) {
                    Some(d) => match MethodDescriptor::parse(d.as_bytes(), 0) {
                        Ok((m, _)) => Some(MethodRef { class_index: c.class_index, name_index: nt.name_index, descriptor: m }),
                        Err(_) => None,
                    },
                    None => None,
                },
                None => None,
            },
            _ => None,
        }
    }
}

/// The class entry of `this_class` names a UTF-8 entry.
pub open spec fn class_name_resolves(c: SpecClassFile) -> bool {
    &&& spec_get_class(c.constant_pool, c.this_class) is Some
    &&& spec_get_utf8(c.constant_pool, spec_get_class(c.constant_pool, c.this_class)->0.name_index) is Some
}

/// The name of a class, read through its `this_class` entry.
pub open spec fn spec_class_name(c: SpecClassFile) -> Seq<char> {
    spec_get_utf8(c.constant_pool, spec_get_class(c.constant_pool, c.this_class)->0.name_index)->0
}

/// The class file declares an interface.
pub open spec fn spec_is_interface(c: SpecClassFile) -> bool {
    c.access_flags.bits & ACC_INTERFACE == ACC_INTERFACE
}

/// The method is static.
pub open spec fn spec_is_static(m: SpecMethod) -> bool {
    m.access_flags.bits & ACC_STATIC == ACC_STATIC
}

/// The superclass entry of a class names a class entry that names a string.
pub open spec fn super_resolves(c: SpecClassFile) -> bool {
    &&& spec_get_class(c.constant_pool, c.super_class->0) is Some
    &&& spec_get_utf8(
        c.constant_pool,
        spec_get_class(c.constant_pool, c.super_class->0)->0.name_index,
    ) is Some
}

/// The name of the superclass of a class.
pub open spec fn super_name(c: SpecClassFile) -> Seq<char> {
    spec_get_utf8(c.constant_pool, spec_get_class(c.constant_pool, c.super_class->0)->0.name_index)->0
}

/// The field is static.
pub open spec fn spec_field_is_static(f: SpecField) -> bool {
    f.access_flags.bits & ACC_STATIC == ACC_STATIC
}

impl Field {
    /// Whether the field is static.
    pub fn is_static(&self) -> (r: bool)
        ensures
            r == spec_field_is_static(self@),
    {
        self.access_flags.contains(ACC_STATIC)
    }
}

impl Method {
    /// Whether the method is static.
    pub fn is_static(&self) -> (r: bool)
        ensures
            r == spec_is_static(self@),
    {
        self.access_flags.contains(ACC_STATIC)
    }
}

impl View for Field {
    type V = SpecField;

    open spec fn view(&self) -> SpecField {
        SpecField {
            access_flags: self.access_flags,
            name_index: self.name_index,
            descriptor_index: self.descriptor_index,
            attributes: self.attributes@,
        }
    }
}

impl View for Method {
    type V = SpecMethod;

    open spec fn view(&self) -> SpecMethod {
        SpecMethod {
            access_flags: self.access_flags,
            name_index: self.name_index,
            descriptor: self.descriptor@,
            attributes: self.attributes@,
        }
    }
}

impl View for MethodRef {
    type V = SpecMethodRef;

    open spec fn view(&self) -> SpecMethodRef {
        SpecMethodRef { class_index: self.class_index, name_index: self.name_index, descriptor: self.descriptor@ }
    }
}

impl View for FieldRef {
    type V = SpecFieldRef;

    open spec fn view(&self) -> SpecFieldRef {
        SpecFieldRef { class_index: self.class_index, name_index: self.name_index, descriptor: self.descriptor@ }
    }
}

impl View for ClassFile {
    type V = SpecClassFile;

    open spec fn view(&self) -> SpecClassFile {
        SpecClassFile {
            version: self.version,
            constant_pool: self.constant_pool@,
            access_flags: self.access_flags,
            this_class: self.this_class,
            super_class: self.super_class,
            interfaces: self.interfaces@,
            fields: self.fields@.map_values(|f: Field| f@),
            methods: self.methods@.map_values(|m: Method| m@),
            attributes: self.attributes@,
        }
    }
}

/// Reads `n` constant indices at `p`.
pub open spec fn spec_indices(s: Seq<u8>, p: int, n: nat) -> Result<(Seq<ConstantIndex>, int), ClassFileError>
    decreases n,
{
    if n == 0 {
        Ok((Seq::empty(), p))
    } else {
        match spec_index(s, p) {
            Ok((i, q)) => match spec_indices(s, q, (n - 1) as nat) {
                Ok((rest, r)) => Ok((seq![i] + rest, r)),
                Err(e) => Err(e),
            },
            Err(e) => Err(e),
        }
    }
}

/// Reads the flags and the two indices that start a field or a method.
pub open spec fn spec_member_head(s: Seq<u8>, p: int) -> Result<(u16, ConstantIndex, ConstantIndex, int), ClassFileError> {
    match spec_u16(s, p) {
        Ok((flags, q)) => match spec_index(s, q) {
            Ok((ni, r)) => match spec_index(s, r) {
                Ok((di, t)) => Ok((flags, ni, di, t)),
                Err(e) => Err(e),
            },
            Err(e) => Err(e),
        },
        Err(e) => Err(e),
    }
}

/// Reads one field at `p`.
pub open spec fn spec_field(s: Seq<u8>, p: int, pool: Seq<SpecConstant>) -> Result<(SpecField, int), ClassFileError> {
    match spec_member_head(s, p) {
        Ok((flags, ni, di, q)) => match spec_attributes(s, q, pool) {
            Ok((a, r)) => Ok((SpecField {
                access_flags: FieldAccessFlags { bits: flags & FIELD_FLAG_BITS },
                name_index: ni,
                descriptor_index: di,
                attributes: a,
            }, r)),
            Err(e) => Err(e),
        },
        Err(e) => Err(e),
    }
}

/// Reading the field at `p` does not stop on an unknown attribute name.
pub open spec fn spec_field_ok(s: Seq<u8>, p: int, pool: Seq<SpecConstant>) -> bool {
    match spec_member_head(s, p) {
        Ok((_, _, _, q)) => spec_attributes_names_known(s, q, pool),
        Err(_) => true,
    }
}

/// Reads one method at `p`: its descriptor is parsed from the UTF-8 bytes of
/// the pool entry its descriptor index names.
pub open spec fn spec_method(s: Seq<u8>, p: int, pool: Seq<SpecConstant>) -> Result<(SpecMethod, int), ClassFileError> {
    match spec_member_head(s, p) {
        Ok((flags, ni, di, q)) => match spec_parse_method_descriptor(encode_utf8(spec_get_utf8(pool, di)->0), 0) {
            Ok((d, _)) => match spec_attributes(s, q, pool) {
                Ok((a, r)) => Ok((SpecMethod {
                    access_flags: MethodAccessFlags { bits: flags & METHOD_FLAG_BITS },
                    name_index: ni,
                    descriptor: d,
                    attributes: a,
                }, r)),
                Err(e) => Err(e),
            },
            Err(e) => Err(e),
        },
        Err(e) => Err(e),
    }
}

/// Reading the method at `p` finds its descriptor string in the pool and
/// every attribute name.
pub open spec fn spec_method_ok(s: Seq<u8>, p: int, pool: Seq<SpecConstant>) -> bool {
    match spec_member_head(s, p) {
        Ok((_, _, di, q)) => spec_get_utf8(pool, di) is Some && (
            spec_parse_method_descriptor(encode_utf8(spec_get_utf8(pool, di)->0), 0) is Ok
                ==> spec_attributes_names_known(s, q, pool)),
        Err(_) => true,
    }
}

/// Reads `n` fields at `p`.
pub open spec fn spec_fields(s: Seq<u8>, p: int, n: nat, pool: Seq<SpecConstant>) -> Result<(Seq<SpecField>, int), ClassFileError>
    decreases n,
{
    if n == 0 {
        Ok((Seq::empty(), p))
    } else {
        match spec_field(s, p, pool) {
            Ok((f, q)) => match spec_fields(s, q, (n - 1) as nat, pool) {
                Ok((rest, r)) => Ok((seq![f] + rest, r)),
                Err(e) => Err(e),
            },
            Err(e) => Err(e),
        }
    }
}

pub open spec fn spec_fields_ok(s: Seq<u8>, p: int, n: nat, pool: Seq<SpecConstant>) -> bool
    decreases n,
{
    n == 0 || (spec_field_ok(s, p, pool) && match spec_field(s, p, pool) {
        Ok((_, q)) => spec_fields_ok(s, q, (n - 1) as nat, pool),
        Err(_) => true,
    })
}

/// Reads `n` methods at `p`.
pub open spec fn spec_methods(s: Seq<u8>, p: int, n: nat, pool: Seq<SpecConstant>) -> Result<(Seq<SpecMethod>, int), ClassFileError>
    decreases n,
{
    if n == 0 {
        Ok((Seq::empty(), p))
    } else {
        match spec_method(s, p, pool) {
            Ok((m, q)) => match spec_methods(s, q, (n - 1) as nat, pool) {
                Ok((rest, r)) => Ok((seq![m] + rest, r)),
                Err(e) => Err(e),
            },
            Err(e) => Err(e),
        }
    }
}

pub open spec fn spec_methods_ok(s: Seq<u8>, p: int, n: nat, pool: Seq<SpecConstant>) -> bool
    decreases n,
{
    n == 0 || (spec_method_ok(s, p, pool) && match spec_method(s, p, pool) {
        Ok((_, q)) => spec_methods_ok(s, q, (n - 1) as nat, pool),
        Err(_) => true,
    })
}

/// Reads a counted list of fields at `p`.
pub open spec fn spec_field_list(s: Seq<u8>, p: int, pool: Seq<SpecConstant>) -> Result<(Seq<SpecField>, int), ClassFileError> {
    match spec_u16(s, p) {
        Ok((n, q)) => spec_fields(s, q, n as nat, pool),
        Err(e) => Err(e),
    }
}

/// Reads a counted list of methods at `p`.
pub open spec fn spec_method_list(s: Seq<u8>, p: int, pool: Seq<SpecConstant>) -> Result<(Seq<SpecMethod>, int), ClassFileError> {
    match spec_u16(s, p) {
        Ok((n, q)) => spec_methods(s, q, n as nat, pool),
        Err(e) => Err(e),
    }
}

/// Reads a counted list of interface indices at `p`.
pub open spec fn spec_interface_list(s: Seq<u8>, p: int) -> Result<(Seq<ConstantIndex>, int), ClassFileError> {
    match spec_u16(s, p) {
        Ok((n, q)) => spec_indices(s, q, n as nat),
        Err(e) => Err(e),
    }
}

/// Everything of a class file up to its constant pool: the version (at 4)
/// and the pool.
pub open spec fn spec_class_head(s: Seq<u8>) -> Result<(Version, Seq<SpecConstant>, int), ClassFileError> {
    match spec_u16(s, 4) {
        Ok((minor, p)) => match spec_u16(s, p) {
            Ok((major, q)) => match spec_constant_pool(s, q) {
                Ok((pool, r)) => Ok((Version { major, minor }, pool, r)),
                Err(e) => Err(e),
            },
            Err(e) => Err(e),
        },
        Err(e) => Err(e),
    }
}

/// The flags, this class, the super class and the interfaces, read at `p`.
pub open spec fn spec_class_names(s: Seq<u8>, p: int) -> Result<(u16, ConstantIndex, Option<ConstantIndex>, Seq<ConstantIndex>, int), ClassFileError> {
    match spec_u16(s, p) {
        Ok((flags, q)) => match spec_index(s, q) {
            Ok((this_class, r)) => match spec_u16(s, r) {
                Ok((sup, t)) => match spec_interface_list(s, t) {
                    Ok((ifaces, w)) => Ok((flags, this_class, if sup > 0 { Some(ConstantIndex(sup)) } else { None }, ifaces, w)),
                    Err(e) => Err(e),
                },
                Err(e) => Err(e),
            },
            Err(e) => Err(e),
        },
        Err(e) => Err(e),
    }
}

/// A class file read after its magic number was accepted.
pub open spec fn spec_class_file(s: Seq<u8>) -> Result<SpecClassFile, ClassFileError> {
    match spec_class_head(s) {
        Ok((version, pool, p)) => match spec_class_names(s, p) {
            Ok((flags, this_class, super_class, interfaces, q)) => match spec_field_list(s, q, pool) {
                Ok((fields, r)) => match spec_method_list(s, r, pool) {
                    Ok((methods, t)) => match spec_attributes(s, t, pool) {
                        Ok((attributes, _)) => Ok(SpecClassFile {
                            version,
                            constant_pool: pool,
                            access_flags: ClassAccessFlags { bits: flags & CLASS_FLAG_BITS },
                            this_class,
                            super_class,
                            interfaces,
                            fields,
                            methods,
                            attributes,
                        }),
                        Err(e) => Err(e),
                    },
                    Err(e) => Err(e),
                },
                Err(e) => Err(e),
            },
            Err(e) => Err(e),
        },
        Err(e) => Err(e),
    }
}

/// The class file at `s` can be read without stopping: its constant pool
/// count is not zero, and every attribute name and method descriptor index
/// names a UTF-8 entry of the pool.
pub open spec fn spec_class_file_ok(s: Seq<u8>) -> bool {
    &&& (match spec_u16(s, 4) {
        Ok((_, p)) => match spec_u16(s, p) {
            Ok((_, q)) => match spec_u16(s, q) {
                Ok((count, _)) => count != 0,
                Err(_) => true,
            },
            Err(_) => true,
        },
        Err(_) => true,
    })
    &&& match spec_class_head(s) {
        Ok((_, pool, p)) => match spec_class_names(s, p) {
            Ok((_, _, _, _, q)) => match spec_u16(s, q) {
                Ok((nf, q2)) => spec_fields_ok(s, q2, nf as nat, pool) && match spec_fields(s, q2, nf as nat, pool) {
                    Ok((_, r)) => match spec_u16(s, r) {
                        Ok((nm, r2)) => spec_methods_ok(s, r2, nm as nat, pool) && match spec_methods(s, r2, nm as nat, pool) {
                            Ok((_, t)) => spec_attributes_names_known(s, t, pool),
                            Err(_) => true,
                        },
                        Err(_) => true,
                    },
                    Err(_) => true,
                },
                Err(_) => true,
            },
            Err(_) => true,
        },
        Err(_) => true,
    }
}

/// The magic number is refused when it reads as `0xCAFEBABE`.
pub open spec fn spec_magic_refused(magic: u32) -> bool {
    magic == 0xCAFEBABEu32
}

/// A class file read with the given magic number.
pub open spec fn spec_class_file_with_magic(s: Seq<u8>, magic: u32) -> Result<SpecClassFile, ClassFileError> {
    if spec_magic_refused(magic) {
        Err(ClassFileError::UnknownMagic)
    } else {
        spec_class_file(s)
    }
}

/// A parse result agrees with a spec outcome.
pub open spec fn class_file_agrees(r: Result<ClassFile, ClassFileError>, s: Result<SpecClassFile, ClassFileError>) -> bool {
    match s {
        Ok(c) => r matches Ok(x) && x@ == c,
        Err(e) => r matches Err(x) && x == e,
    }
}

} // verus!

verus! {

fn parse_member_head(bytes: &[u8], pos: usize) -> (r: Result<(u16, ConstantIndex, ConstantIndex, usize), ClassFileError>)
    ensures
        match spec_member_head(bytes@, pos as int) {
            Ok((f, a, b, q)) => r matches Ok((x, y, z, w)) && x == f && y == a && z == b && w as int == q && pos < q <= bytes@.len(),
            Err(e) => r matches Err(x) && x == e,
        },
{
    let (flags, q) = match read_u16(bytes, pos) { Ok(x) => x, Err(e) => return Err(e) };
    let (ni, q) = match ConstantIndex::parse(bytes, q) { Ok(x) => x, Err(e) => return Err(e) };
    let (di, q) = match ConstantIndex::parse(bytes, q) { Ok(x) => x, Err(e) => return Err(e) };
    Ok((flags, ni, di, q))
}

fn parse_field(bytes: &[u8], pos: usize, consts: &ConstantPool) -> (r: Result<(Field, usize), ClassFileError>)
    requires
        pos <= bytes@.len(),
        spec_field_ok(bytes@, pos as int, consts@),
    ensures
        match spec_field(bytes@, pos as int, consts@) {
            Ok((f, q)) => r matches Ok((x, y)) && x@ == f && y as int == q && pos < q <= bytes@.len(),
            Err(e) => r matches Err(x) && x == e,
        },
{
    let (flags, ni, di, q) = match parse_member_head(bytes, pos) { Ok(x) => x, Err(e) => return Err(e) };
    let (attributes, r) = match Attributes::parse(bytes, q, consts) { Ok(x) => x, Err(e) => return Err(e) };
    Ok((Field {
        access_flags: FieldAccessFlags::from_bits_truncate(flags),
        name_index: ni,
        descriptor_index: di,
        attributes,
    }, r))
}

fn parse_method(bytes: &[u8], pos: usize, consts: &ConstantPool) -> (r: Result<(Method, usize), ClassFileError>)
    requires
        pos <= bytes@.len(),
        spec_method_ok(bytes@, pos as int, consts@),
    ensures
        match spec_method(bytes@, pos as int, consts@) {
            Ok((m, q)) => r matches Ok((x, y)) && x@ == m && y as int == q && pos < q <= bytes@.len(),
            Err(e) => r matches Err(x) && x == e,
        },
{
    let (flags, ni, di, q) = match parse_member_head(bytes, pos) { Ok(x) => x, Err(e) => return Err(e) };
    let descriptor_string = match consts.get_utf8(di) {
        Some(d) => d,
        None => return Err(ClassFileError::UnexpectedEof),
    };
    let (descriptor, _) = match MethodDescriptor::parse(descriptor_string.as_bytes(), 0) {
        Ok(x) => x,
        Err(e) => return Err(e),
    };
    let (attributes, r) = match Attributes::parse(bytes, q, consts) { Ok(x) => x, Err(e) => return Err(e) };
    Ok((Method {
        access_flags: MethodAccessFlags::from_bits_truncate(flags),
        name_index: ni,
        descriptor,
        attributes,
    }, r))
}

/// Whether reading the field at `pos` finds every attribute name.
fn field_ok(bytes: &[u8], pos: usize, consts: &ConstantPool) -> (r: bool)
    ensures
        r == spec_field_ok(bytes@, pos as int, consts@),
{
    match parse_member_head(bytes, pos) {
        Ok((_, _, _, q)) => attributes_names_known(bytes, q, consts),
        Err(_) => true,
    }
}

/// Whether reading the method at `pos` finds its descriptor string and every
/// attribute name.
fn method_ok(bytes: &[u8], pos: usize, consts: &ConstantPool) -> (r: bool)
    ensures
        r == spec_method_ok(bytes@, pos as int, consts@),
{
    match parse_member_head(bytes, pos) {
        Ok((_, _, di, q)) => match consts.get_utf8(di) {
            Some(d) => match MethodDescriptor::parse(d.as_bytes(), 0) {
                Ok(_) => attributes_names_known(bytes, q, consts),
                Err(_) => true,
            },
            None => false,
        },
        Err(_) => true,
    }
}

/// Whether reading `n` fields at `pos` finds every attribute name.
fn fields_ok(bytes: &[u8], pos: usize, n: u16, consts: &ConstantPool) -> (r: bool)
    requires
        pos <= bytes@.len(),
    ensures
        r == spec_fields_ok(bytes@, pos as int, n as nat, consts@),
    decreases n,
{
    if n == 0 {
        return true;
    }
    if !field_ok(bytes, pos, consts) {
        return false;
    }
    match parse_field(bytes, pos, consts) {
        Ok((_, q)) => fields_ok(bytes, q, n - 1, consts),
        Err(_) => true,
    }
}

/// Whether reading `n` methods at `pos` finds every descriptor string and
/// attribute name.
fn methods_ok(bytes: &[u8], pos: usize, n: u16, consts: &ConstantPool) -> (r: bool)
    requires
        pos <= bytes@.len(),
    ensures
        r == spec_methods_ok(bytes@, pos as int, n as nat, consts@),
    decreases n,
{
    if n == 0 {
        return true;
    }
    if !method_ok(bytes, pos, consts) {
        return false;
    }
    match parse_method(bytes, pos, consts) {
        Ok((_, q)) => methods_ok(bytes, q, n - 1, consts),
        Err(_) => true,
    }
}

fn parse_fields(bytes: &[u8], pos: usize, consts: &ConstantPool) -> (r: Result<(Vec<Field>, usize), ClassFileError>)
    requires
        pos <= bytes@.len(),
        spec_u16(bytes@, pos as int) matches Ok((n, q)) ==> spec_fields_ok(bytes@, q, n as nat, consts@),
    ensures
        match spec_field_list(bytes@, pos as int, consts@) {
            Ok((fs, q)) => r matches Ok((x, y)) && x@.map_values(|f: Field| f@) == fs && y as int == q && pos <= q <= bytes@.len(),
            Err(e) => r matches Err(x) && x == e,
        },
{
    let (count, start) = match read_u16(bytes, pos) { Ok(x) => x, Err(e) => return Err(e) };
    let mut fields: Vec<Field> = Vec::new();
    let mut cur = start;
    let mut i: u16 = 0;
    while i < count
        invariant
            i <= count,
            pos <= start <= cur <= bytes@.len(),
            spec_field_list(bytes@, pos as int, consts@) == spec_fields(bytes@, start as int, count as nat, consts@),
            spec_fields_ok(bytes@, cur as int, (count - i) as nat, consts@),
            spec_fields(bytes@, start as int, count as nat, consts@) == (match spec_fields(bytes@, cur as int, (count - i) as nat, consts@) {
                Ok((rest, q)) => Ok((fields@.map_values(|f: Field| f@) + rest, q)),
                Err(e) => Err::<(Seq<SpecField>, int), ClassFileError>(e),
            }),
        decreases count - i,
    {
        let (f, q) = match parse_field(bytes, cur, consts) { Ok(x) => x, Err(e) => return Err(e) };
        let ghost before = fields@.map_values(|f: Field| f@);
        let ghost fv = f@;
        fields.push(f);
        proof {
            assert(fields@.map_values(|f: Field| f@) =~= before.push(fv));
            let tail = spec_fields(bytes@, q as int, (count - i - 1) as nat, consts@);
            if tail is Ok {
                assert(before + (seq![fv] + tail->Ok_0.0) =~= before.push(fv) + tail->Ok_0.0);
            }
        }
        cur = q;
        i = i + 1;
    }
    assert(fields@.map_values(|f: Field| f@) + Seq::<SpecField>::empty() =~= fields@.map_values(|f: Field| f@));
    Ok((fields, cur))
}

fn parse_methods(bytes: &[u8], pos: usize, consts: &ConstantPool) -> (r: Result<(Vec<Method>, usize), ClassFileError>)
    requires
        pos <= bytes@.len(),
        spec_u16(bytes@, pos as int) matches Ok((n, q)) ==> spec_methods_ok(bytes@, q, n as nat, consts@),
    ensures
        match spec_method_list(bytes@, pos as int, consts@) {
            Ok((ms, q)) => r matches Ok((x, y)) && x@.map_values(|m: Method| m@) == ms && y as int == q && pos <= q <= bytes@.len(),
            Err(e) => r matches Err(x) && x == e,
        },
{
    let (count, start) = match read_u16(bytes, pos) { Ok(x) => x, Err(e) => return Err(e) };
    let mut methods: Vec<Method> = Vec::new();
    let mut cur = start;
    let mut i: u16 = 0;
    while i < count
        invariant
            i <= count,
            pos <= start <= cur <= bytes@.len(),
            spec_method_list(bytes@, pos as int, consts@) == spec_methods(bytes@, start as int, count as nat, consts@),
            spec_methods_ok(bytes@, cur as int, (count - i) as nat, consts@),
            spec_methods(bytes@, start as int, count as nat, consts@) == (match spec_methods(bytes@, cur as int, (count - i) as nat, consts@) {
                Ok((rest, q)) => Ok((methods@.map_values(|m: Method| m@) + rest, q)),
                Err(e) => Err::<(Seq<SpecMethod>, int), ClassFileError>(e),
            }),
        decreases count - i,
    {
        let (m, q) = match parse_method(bytes, cur, consts) { Ok(x) => x, Err(e) => return Err(e) };
        let ghost before = methods@.map_values(|m: Method| m@);
        let ghost mv = m@;
        methods.push(m);
        proof {
            assert(methods@.map_values(|m: Method| m@) =~= before.push(mv));
            let tail = spec_methods(bytes@, q as int, (count - i - 1) as nat, consts@);
            if tail is Ok {
                assert(before + (seq![mv] + tail->Ok_0.0) =~= before.push(mv) + tail->Ok_0.0);
            }
        }
        cur = q;
        i = i + 1;
    }
    assert(methods@.map_values(|m: Method| m@) + Seq::<SpecMethod>::empty() =~= methods@.map_values(|m: Method| m@));
    Ok((methods, cur))
}

fn parse_interfaces(bytes: &[u8], pos: usize) -> (r: Result<(Vec<ConstantIndex>, usize), ClassFileError>)
    requires
        pos <= bytes@.len(),
    ensures
        match spec_interface_list(bytes@, pos as int) {
            Ok((is, q)) => r matches Ok((x, y)) && x@ == is && y as int == q && pos <= q <= bytes@.len(),
            Err(e) => r matches Err(x) && x == e,
        },
{
    let (count, start) = match read_u16(bytes, pos) { Ok(x) => x, Err(e) => return Err(e) };
    let mut out: Vec<ConstantIndex> = Vec::new();
    let mut cur = start;
    let mut i: u16 = 0;
    while i < count
        invariant
            i <= count,
            pos <= start <= cur <= bytes@.len(),
            spec_interface_list(bytes@, pos as int) == spec_indices(bytes@, start as int, count as nat),
            spec_indices(bytes@, start as int, count as nat) == (match spec_indices(bytes@, cur as int, (count - i) as nat) {
                Ok((rest, q)) => Ok((out@ + rest, q)),
                Err(e) => Err::<(Seq<ConstantIndex>, int), ClassFileError>(e),
            }),
        decreases count - i,
    {
        let (idx, q) = match ConstantIndex::parse(bytes, cur) { Ok(x) => x, Err(e) => return Err(e) };
        let ghost before = out@;
        out.push(idx);
        proof {
            let tail = spec_indices(bytes@, q as int, (count - i - 1) as nat);
            if tail is Ok {
                assert(before + (seq![idx] + tail->Ok_0.0) =~= out@ + tail->Ok_0.0);
            }
        }
        cur = q;
        i = i + 1;
    }
    assert(out@ + Seq::<ConstantIndex>::empty() =~= out@);
    Ok((out, cur))
}

impl ClassFile {
    /// Reads a class file. The magic number is read in the machine's byte
    /// order and refused when it reads as `0xCAFEBABE`; the rest is read by
    /// `parse_with_magic`.
    pub fn parse(bytes: &[u8]) -> (r: Result<ClassFile, ClassFileError>)
        requires
            spec_class_file_ok(bytes@),
        ensures
            bytes@.len() < 4 ==> (r matches Err(e) && e == ClassFileError::UnexpectedEof),
            bytes@.len() >= 4 ==> class_file_agrees(r, spec_class_file_with_magic(bytes@, be32(bytes@, 0) as u32))
                || class_file_agrees(r, spec_class_file_with_magic(bytes@, le32(bytes@, 0) as u32)),
    {
        let (magic, _) = match read_native_u32(bytes, 0) {
            Ok(x) => x,
            Err(e) => return Err(e),
        };
        ClassFile::parse_with_magic(bytes, magic)
    }

    /// Whether a class file can be read without stopping on an unknown
    /// name (see `spec_class_file_ok`).
    pub fn class_file_ok(bytes: &[u8]) -> (r: bool)
        ensures
            r == spec_class_file_ok(bytes@),
    {
        let count_ok = match read_u16(bytes, 4) {
            Ok((_, p)) => match read_u16(bytes, p) {
                Ok((_, q)) => match read_u16(bytes, q) {
                    Ok((count, _)) => count != 0,
                    Err(_) => true,
                },
                Err(_) => true,
            },
            Err(_) => true,
        };
        if !count_ok {
            return false;
        }
        let (_, p) = match read_u16(bytes, 4) { Ok(x) => x, Err(_) => return true };
        let (_, p) = match read_u16(bytes, p) { Ok(x) => x, Err(_) => return true };
        let (constant_pool, p) = match ConstantPool::parse(bytes, p) { Ok(x) => x, Err(_) => return true };
        let (_, p) = match read_u16(bytes, p) { Ok(x) => x, Err(_) => return true };
        let (_, p) = match ConstantIndex::parse(bytes, p) { Ok(x) => x, Err(_) => return true };
        let (_, p) = match read_u16(bytes, p) { Ok(x) => x, Err(_) => return true };
        let (_, q) = match parse_interfaces(bytes, p) { Ok(x) => x, Err(_) => return true };
        let (nf, q2) = match read_u16(bytes, q) { Ok(x) => x, Err(_) => return true };
        if !fields_ok(bytes, q2, nf, &constant_pool) {
            return false;
        }
        let (_, r) = match parse_fields(bytes, q, &constant_pool) { Ok(x) => x, Err(_) => return true };
        let (nm, r2) = match read_u16(bytes, r) { Ok(x) => x, Err(_) => return true };
        if !methods_ok(bytes, r2, nm, &constant_pool) {
            return false;
        }
        let (_, t) = match parse_methods(bytes, r, &constant_pool) { Ok(x) => x, Err(_) => return true };
        attributes_names_known(bytes, t, &constant_pool)
    }

    /// Reads a class file where `parse` can: `None` on the files on which
    /// reading would stop on an unknown name or a zero pool count.
    pub fn parse_checked(bytes: &[u8]) -> (r: Option<Result<ClassFile, ClassFileError>>)
        ensures
            r is None <==> !spec_class_file_ok(bytes@),
            r matches Some(x) ==> {
                &&& bytes@.len() < 4 ==> (x matches Err(e) && e == ClassFileError::UnexpectedEof)
                &&& bytes@.len() >= 4 ==> class_file_agrees(x, spec_class_file_with_magic(bytes@, be32(bytes@, 0) as u32))
                    || class_file_agrees(x, spec_class_file_with_magic(bytes@, le32(bytes@, 0) as u32))
            },
    {
        if ClassFile::class_file_ok(bytes) {
            Some(ClassFile::parse(bytes))
        } else {
            None
        }
    }

    /// Reads a class file whose first four bytes were read as `magic`.
    pub fn parse_with_magic(bytes: &[u8], magic: u32) -> (r: Result<ClassFile, ClassFileError>)
        requires
            spec_class_file_ok(bytes@),
        ensures
            class_file_agrees(r, spec_class_file_with_magic(bytes@, magic)),
    {
        if magic == 0xCAFEBABE {
            return Err(ClassFileError::UnknownMagic);
        }
        let (minor, p) = match read_u16(bytes, 4) { Ok(x) => x, Err(e) => return Err(e) };
        let (major, p) = match read_u16(bytes, p) { Ok(x) => x, Err(e) => return Err(e) };
        let (constant_pool, p) = match ConstantPool::parse(bytes, p) { Ok(x) => x, Err(e) => return Err(e) };
        let (flags, p) = match read_u16(bytes, p) { Ok(x) => x, Err(e) => return Err(e) };
        let (this_class, p) = match ConstantIndex::parse(bytes, p) { Ok(x) => x, Err(e) => return Err(e) };
        let (sup, p) = match read_u16(bytes, p) { Ok(x) => x, Err(e) => return Err(e) };
        let super_class = if sup > 0 { Some(ConstantIndex(sup)) } else { None };
        let (interfaces, p) = match parse_interfaces(bytes, p) { Ok(x) => x, Err(e) => return Err(e) };
        let (fields, p) = match parse_fields(bytes, p, &constant_pool) { Ok(x) => x, Err(e) => return Err(e) };
        let (methods, p) = match parse_methods(bytes, p, &constant_pool) { Ok(x) => x, Err(e) => return Err(e) };
        let (attributes, _) = match Attributes::parse(bytes, p, &constant_pool) { Ok(x) => x, Err(e) => return Err(e) };
        Ok(ClassFile {
            version: Version { major, minor },
            constant_pool,
            access_flags: ClassAccessFlags::from_bits_truncate(flags),
            this_class,
            super_class,
            interfaces,
            fields,
            methods,
            attributes,
        })
    }

    /// The class entry of this class; the index must name one.
    pub fn get_this_class(&self) -> (r: &ClassConstant)
        requires
            spec_get_class(self.constant_pool@, self.this_class) is Some,
        ensures
            *r == spec_get_class(self.constant_pool@, self.this_class)->0,
    {
        self.constant_pool.get_class(self.this_class).unwrap()
    }

    /// The name of this class, as its class entry gives it.
    pub fn get_name(&self) -> (r: &str)
        requires
            class_name_resolves(self@),
        ensures
            r@ == spec_class_name(self@),
    {
        let this_class = self.get_this_class();
        self.constant_pool.get_utf8(this_class.name_index).unwrap()
    }

    /// Whether this class file declares an interface.
    pub fn is_interface(&self) -> (r: bool)
        ensures
            r == spec_is_interface(self@),
    {
        self.access_flags.contains(ACC_INTERFACE)
    }

    /// The class entry of the super class, if the class has one; the index
    /// must name one.
    pub fn get_super_class(&self) -> (r: Option<&ClassConstant>)
        requires
            self.super_class matches Some(i) ==> spec_get_class(self.constant_pool@, i) is Some,
        ensures
            match self.super_class {
                Some(i) => r matches Some(c) && *c == spec_get_class(self.constant_pool@, i)->0,
                None => r is None,
            },
    {
        match self.super_class {
            Some(idx) => Some(self.constant_pool.get_class(idx).unwrap()),
            None => None,
        }
    }
}

} // verus!
