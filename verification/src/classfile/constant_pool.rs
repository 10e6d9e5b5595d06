//! The constant pool of a class file (JVM specification, section 4.4).
use vstd::prelude::*;
use vstd::utf8::{valid_utf8, decode_utf8};
use crate::classfile::error::ClassFileError;
use crate::classfile::buffer::{
    agrees, agrees_view, read_u8, read_u16, read_u32, read_u64, read_i32, read_i64, spec_u8,
    spec_u16, spec_u32, spec_u64, spec_i32, spec_i64, spec_take,
};

verus! {

/// An index into the constant pool; entries are numbered from 1.
#[derive(Clone, Copy, Debug, PartialEq, Eq, Structural)]
pub struct ConstantIndex(pub u16);

impl ConstantIndex {
    /// Reads a big-endian index at `pos`.
    pub(crate) fn parse(bytes: &[u8], pos: usize) -> (r: Result<(ConstantIndex, usize), ClassFileError>)
        ensures
            agrees(r, spec_index(bytes@, pos as int)),
    {
        match read_u16(bytes, pos) {
            Ok((v, q)) => Ok((ConstantIndex(v), q)),
            Err(e) => Err(e),
        }
    }

    pub fn from_u8(idx: u8) -> (r: Self)
        ensures
            r.0 == idx as u16,
    {
        ConstantIndex(idx as u16)
    }

    pub fn from_u16(idx: u16) -> (r: Self)
        ensures
            r.0 == idx,
    {
        ConstantIndex(idx)
    }

    pub fn as_u16(&self) -> (r: u16)
        ensures
            r == self.0,
    {
        self.0
    }
}

/// Reads a constant index.
pub open spec fn spec_index(s: Seq<u8>, p: int) -> Result<(ConstantIndex, int), ClassFileError> {
    match spec_u16(s, p) {
        Ok((v, q)) => Ok((ConstantIndex(v), q)),
        Err(e) => Err(e),
    }
}

#[derive(Clone, Copy, Debug, PartialEq, Eq, Structural)]
pub struct ClassConstant {
    pub name_index: ConstantIndex,
}

#[derive(Clone, Copy, Debug, PartialEq, Eq, Structural)]
pub struct FieldRefConstant {
    pub class_index: ConstantIndex,
    pub name_and_type_index: ConstantIndex,
}

#[derive(Clone, Copy, Debug, PartialEq, Eq, Structural)]
pub struct MethodRefConstant {
    pub class_index: ConstantIndex,
    pub name_and_type_index: ConstantIndex,
}

#[derive(Clone, Copy, Debug, PartialEq, Eq, Structural)]
pub struct InterfaceMethodRefConstant {
    pub class_index: ConstantIndex,
    pub name_and_type_index: ConstantIndex,
}

#[derive(Clone, Copy, Debug, PartialEq, Eq, Structural)]
pub struct StringConstant {
    pub string_index: ConstantIndex,
}

#[derive(Clone, Copy, Debug, PartialEq, Eq, Structural)]
pub struct IntegerConstant {
    pub value: i32,
}

/// A `float` constant, held as its IEEE 754 bit pattern.
#[derive(Clone, Copy, Debug, PartialEq, Eq, Structural)]
pub struct FloatConstant {
    pub bits: u32,
}

#[derive(Clone, Copy, Debug, PartialEq, Eq, Structural)]
pub struct LongConstant {
    pub value: i64,
}

/// A `double` constant, held as its IEEE 754 bit pattern.
#[derive(Clone, Copy, Debug, PartialEq, Eq, Structural)]
pub struct DoubleConstant {
    pub bits: u64,
}

#[derive(Clone, Copy, Debug, PartialEq, Eq, Structural)]
pub struct NameAndTypeConstant {
    pub name_index: ConstantIndex,
    pub descriptor_index: ConstantIndex,
}

#[derive(Clone, Debug, PartialEq, Eq, PartialOrd, Ord)]
pub struct Utf8Constant {
    pub string: String,
}

impl Utf8Constant {
    /// A copy of this constant.
    pub fn duplicate(&self) -> (r: Utf8Constant)
        ensures
            r.string@ == self.string@,
    {
        Utf8Constant { string: self.string.clone() }
    }
}

#[derive(Clone, Copy, Debug, PartialEq, Eq, Structural)]
pub struct MethodHandleConstant {
    pub reference_kind: u8,
    pub reference_index: ConstantIndex,
}

#[derive(Clone, Copy, Debug, PartialEq, Eq, Structural)]
pub struct MethodTypeConstant {
    pub descriptor_index: ConstantIndex,
}

#[derive(Clone, Copy, Debug, PartialEq, Eq, Structural)]
pub struct InvokeDynamicConstant {
    pub bootstrap_method_attr_index: ConstantIndex,
    pub name_and_type_index: ConstantIndex,
}

/// An entry of the constant pool.
#[derive(Debug, PartialEq, Eq)]
pub enum Constant {
    Class(ClassConstant),
    FieldRef(FieldRefConstant),
    MethodRef(MethodRefConstant),
    InterfaceMethodRef(InterfaceMethodRefConstant),
    String(StringConstant),
    Integer(IntegerConstant),
    Float(FloatConstant),
    Long(LongConstant),
    Double(DoubleConstant),
    NameAndType(NameAndTypeConstant),
    Utf8(Utf8Constant),
    MethodHandle(MethodHandleConstant),
    MethodType(MethodTypeConstant),
    InvokeDynamic(InvokeDynamicConstant),
    /// The second slot taken by a `long` or `double` constant.
    Unusable,
}

/// The mathematical value of a constant: strings are character sequences.
pub enum SpecConstant {
    Class(ClassConstant),
    FieldRef(FieldRefConstant),
    MethodRef(MethodRefConstant),
    InterfaceMethodRef(InterfaceMethodRefConstant),
    String(StringConstant),
    Integer(IntegerConstant),
    Float(FloatConstant),
    Long(LongConstant),
    Double(DoubleConstant),
    NameAndType(NameAndTypeConstant),
    Utf8(Seq<char>),
    MethodHandle(MethodHandleConstant),
    MethodType(MethodTypeConstant),
    InvokeDynamic(InvokeDynamicConstant),
    Unusable,
}

impl View for Constant {
    type V = SpecConstant;

    open spec fn view(&self) -> SpecConstant {
        match self {
            Constant::Class(c) => SpecConstant::Class(*c),
            Constant::FieldRef(c) => SpecConstant::FieldRef(*c),
            Constant::MethodRef(c) => SpecConstant::MethodRef(*c),
            Constant::InterfaceMethodRef(c) => SpecConstant::InterfaceMethodRef(*c),
            Constant::String(c) => SpecConstant::String(*c),
            Constant::Integer(c) => SpecConstant::Integer(*c),
            Constant::Float(c) => SpecConstant::Float(*c),
            Constant::Long(c) => SpecConstant::Long(*c),
            Constant::Double(c) => SpecConstant::Double(*c),
            Constant::NameAndType(c) => SpecConstant::NameAndType(*c),
            Constant::Utf8(c) => SpecConstant::Utf8(c.string@),
            Constant::MethodHandle(c) => SpecConstant::MethodHandle(*c),
            Constant::MethodType(c) => SpecConstant::MethodType(*c),
            Constant::InvokeDynamic(c) => SpecConstant::InvokeDynamic(*c),
            Constant::Unusable => SpecConstant::Unusable,
        }
    }
}

/// What `cesu8::from_java_cesu8` decodes the given bytes to, or `None` when
/// it refuses them.
pub uninterp spec fn java_cesu8_decode(bytes: Seq<u8>) -> Option<Seq<char>>;

/// `cesu8::from_java_cesu8`: decodes Java's modified UTF-8. Its result is
/// named by `java_cesu8_decode`; the crate's source passes input that is
/// already valid UTF-8 through unchanged, which the second clause states.
#[verifier::external_body]
fn decode_java_cesu8(bytes: &[u8]) -> (r: Option<String>)
    ensures
        r matches Some(s) ==> java_cesu8_decode(bytes@) == Some(s@),
        r is None ==> java_cesu8_decode(bytes@) is None,
        valid_utf8(bytes@) ==> r is Some && r->0@ == decode_utf8(bytes@),
{
    cesu8::from_java_cesu8(bytes).ok().map(|s| s.into_owned())
}

/// A constant whose fields are two indices, read at `p`.
pub open spec fn spec_two_indices(s: Seq<u8>, p: int) -> Result<(ConstantIndex, ConstantIndex, int), ClassFileError> {
    match spec_index(s, p) {
        Ok((a, q)) => match spec_index(s, q) {
            Ok((b, r)) => Ok((a, b, r)),
            Err(e) => Err(e),
        },
        Err(e) => Err(e),
    }
}

/// Reads the body of a `CONSTANT_Utf8` entry at `p`.
pub open spec fn spec_utf8_body(s: Seq<u8>, p: int) -> Result<(Seq<char>, int), ClassFileError> {
    match spec_u16(s, p) {
        Ok((len, q)) => match spec_take(s, q, len as int) {
            Ok(r) => match java_cesu8_decode(s.subrange(q, r)) {
                Some(cs) => Ok((cs, r)),
                None => Err(ClassFileError::InvalidJavaCesu8),
            },
            Err(e) => Err(e),
        },
        Err(e) => Err(e),
    }
}

/// Reads one entry with the given tag, whose body starts at `p`; `long` and
/// `double` entries are followed by an unusable slot.
#[verifier::opaque]
pub open spec fn spec_constant_body(s: Seq<u8>, p: int, tag: u8) -> Result<(Seq<SpecConstant>, int), ClassFileError> {
    if tag == 7u8 {
        match spec_index(s, p) {
            Ok((i, q)) => Ok((seq![SpecConstant::Class(ClassConstant { name_index: i })], q)),
            Err(e) => Err(e),
        }
    } else if tag == 9u8 {
        match spec_two_indices(s, p) {
            Ok((a, b, q)) => Ok((seq![SpecConstant::FieldRef(FieldRefConstant { class_index: a, name_and_type_index: b })], q)),
            Err(e) => Err(e),
        }
    } else if tag == 10u8 {
        match spec_two_indices(s, p) {
            Ok((a, b, q)) => Ok((seq![SpecConstant::MethodRef(MethodRefConstant { class_index: a, name_and_type_index: b })], q)),
            Err(e) => Err(e),
        }
    } else if tag == 11u8 {
        match spec_two_indices(s, p) {
            Ok((a, b, q)) => Ok((seq![SpecConstant::InterfaceMethodRef(InterfaceMethodRefConstant { class_index: a, name_and_type_index: b })], q)),
            Err(e) => Err(e),
        }
    } else if tag == 8u8 {
        match spec_index(s, p) {
            Ok((i, q)) => Ok((seq![SpecConstant::String(StringConstant { string_index: i })], q)),
            Err(e) => Err(e),
        }
    } else if tag == 3u8 {
        match spec_i32(s, p) {
            Ok((v, q)) => Ok((seq![SpecConstant::Integer(IntegerConstant { value: v })], q)),
            Err(e) => Err(e),
        }
    } else if tag == 4u8 {
        match spec_u32(s, p) {
            Ok((v, q)) => Ok((seq![SpecConstant::Float(FloatConstant { bits: v })], q)),
            Err(e) => Err(e),
        }
    } else if tag == 5u8 {
        match spec_i64(s, p) {
            Ok((v, q)) => Ok((seq![SpecConstant::Long(LongConstant { value: v }), SpecConstant::Unusable], q)),
            Err(e) => Err(e),
        }
    } else if tag == 6u8 {
        match spec_u64(s, p) {
            Ok((v, q)) => Ok((seq![SpecConstant::Double(DoubleConstant { bits: v }), SpecConstant::Unusable], q)),
            Err(e) => Err(e),
        }
    } else if tag == 12u8 {
        match spec_two_indices(s, p) {
            Ok((a, b, q)) => Ok((seq![SpecConstant::NameAndType(NameAndTypeConstant { name_index: a, descriptor_index: b })], q)),
            Err(e) => Err(e),
        }
    } else if tag == 1u8 {
        match spec_utf8_body(s, p) {
            Ok((cs, q)) => Ok((seq![SpecConstant::Utf8(cs)], q)),
            Err(e) => Err(e),
        }
    } else if tag == 15u8 {
        match spec_u8(s, p) {
            Ok((k, q)) => match spec_index(s, q) {
                Ok((i, r)) => Ok((seq![SpecConstant::MethodHandle(MethodHandleConstant { reference_kind: k, reference_index: i })], r)),
                Err(e) => Err(e),
            },
            Err(e) => Err(e),
        }
    } else if tag == 16u8 {
        match spec_index(s, p) {
            Ok((i, q)) => Ok((seq![SpecConstant::MethodType(MethodTypeConstant { descriptor_index: i })], q)),
            Err(e) => Err(e),
        }
    } else if tag == 18u8 {
        match spec_two_indices(s, p) {
            Ok((a, b, q)) => Ok((seq![SpecConstant::InvokeDynamic(InvokeDynamicConstant { bootstrap_method_attr_index: a, name_and_type_index: b })], q)),
            Err(e) => Err(e),
        }
    } else {
        Err(ClassFileError::UnknownConstantTag(tag))
    }
}

/// Reads one tagged entry at `p`.
pub open spec fn spec_constant(s: Seq<u8>, p: int) -> Result<(Seq<SpecConstant>, int), ClassFileError> {
    match spec_u8(s, p) {
        Ok((tag, q)) => spec_constant_body(s, q, tag),
        Err(e) => Err(e),
    }
}

/// Reads `n` tagged entries one after the other, starting at `p`.
pub open spec fn spec_constants(s: Seq<u8>, p: int, n: nat) -> Result<(Seq<SpecConstant>, int), ClassFileError>
    decreases n,
{
    if n == 0 {
        Ok((Seq::empty(), p))
    } else {
        match spec_constant(s, p) {
            Ok((cs, q)) => match spec_constants(s, q, (n - 1) as nat) {
                Ok((rest, r)) => Ok((cs + rest, r)),
                Err(e) => Err(e),
            },
            Err(e) => Err(e),
        }
    }
}

/// Reads a constant pool at `p`: a count, then one entry fewer than the count.
pub open spec fn spec_constant_pool(s: Seq<u8>, p: int) -> Result<(Seq<SpecConstant>, int), ClassFileError> {
    match spec_u16(s, p) {
        Ok((count, q)) => spec_constants(s, q, (count - 1) as nat),
        Err(e) => Err(e),
    }
}

/// The constant pool of a class.
#[derive(Debug)]
pub struct ConstantPool {
    pub(crate) vec: Vec<Constant>,
}

impl View for ConstantPool {
    type V = Seq<SpecConstant>;

    closed spec fn view(&self) -> Seq<SpecConstant> {
        self.vec@.map_values(|c: Constant| c@)
    }
}

/// The entry at a (1-based) index, if there is one.
pub open spec fn spec_get_info(pool: Seq<SpecConstant>, idx: ConstantIndex) -> Option<SpecConstant> {
    if idx.0 > 0 && idx.0 - 1 < pool.len() { Some(pool[idx.0 - 1]) } else { None }
}

/// Reads one tagged entry and appends it (and its unusable slot, if any).
fn parse_constant(bytes: &[u8], pos: usize, vec: &mut Vec<Constant>) -> (r: Result<usize, ClassFileError>)
    requires
        pos <= bytes@.len(),
    ensures
        match spec_constant(bytes@, pos as int) {
            Ok((cs, q)) => r matches Ok(x) && x as int == q && pos < q <= bytes@.len()
                && final(vec)@.map_values(|c: Constant| c@) == old(vec)@.map_values(|c: Constant| c@) + cs,
            Err(e) => r == Err::<usize, ClassFileError>(e),
        },
{
    let (tag, p) = match read_u8(bytes, pos) {
        Ok(x) => x,
        Err(e) => return Err(e),
    };
    let ghost before = vec@.map_values(|c: Constant| c@);
    proof {
        reveal(spec_constant_body);
    }
    let (info, q) = if tag == 7 {
        match ConstantIndex::parse(bytes, p) {
            Ok((i, q)) => (Constant::Class(ClassConstant { name_index: i }), q),
            Err(e) => return Err(e),
        }
    } else if tag == 9 || tag == 10 || tag == 11 || tag == 12 || tag == 18 {
        let (a, q) = match ConstantIndex::parse(bytes, p) {
            Ok(x) => x,
            Err(e) => return Err(e),
        };
        let (b, q) = match ConstantIndex::parse(bytes, q) {
            Ok(x) => x,
            Err(e) => return Err(e),
        };
        let c = if tag == 9 {
            Constant::FieldRef(FieldRefConstant { class_index: a, name_and_type_index: b })
        } else if tag == 10 {
            Constant::MethodRef(MethodRefConstant { class_index: a, name_and_type_index: b })
        } else if tag == 11 {
            Constant::InterfaceMethodRef(InterfaceMethodRefConstant { class_index: a, name_and_type_index: b })
        } else if tag == 12 {
            Constant::NameAndType(NameAndTypeConstant { name_index: a, descriptor_index: b })
        } else {
            Constant::InvokeDynamic(InvokeDynamicConstant { bootstrap_method_attr_index: a, name_and_type_index: b })
        };
        (c, q)
    } else if tag == 8 {
        match ConstantIndex::parse(bytes, p) {
            Ok((i, q)) => (Constant::String(StringConstant { string_index: i }), q),
            Err(e) => return Err(e),
        }
    } else if tag == 3 {
        match read_i32(bytes, p) {
            Ok((v, q)) => (Constant::Integer(IntegerConstant { value: v }), q),
            Err(e) => return Err(e),
        }
    } else if tag == 4 {
        match read_u32(bytes, p) {
            Ok((v, q)) => (Constant::Float(FloatConstant { bits: v }), q),
            Err(e) => return Err(e),
        }
    } else if tag == 5 {
        match read_i64(bytes, p) {
            Ok((v, q)) => (Constant::Long(LongConstant { value: v }), q),
            Err(e) => return Err(e),
        }
    } else if tag == 6 {
        match read_u64(bytes, p) {
            Ok((v, q)) => (Constant::Double(DoubleConstant { bits: v }), q),
            Err(e) => return Err(e),
        }
    } else if tag == 1 {
        let (len, q) = match read_u16(bytes, p) {
            Ok(x) => x,
            Err(e) => return Err(e),
        };
        if bytes.len() - q < len as usize {
            return Err(ClassFileError::UnexpectedEof);
        }
        let end = q + len as usize;
        let chunk = &bytes[q..end];
        match decode_java_cesu8(chunk) {
            Some(string) => (Constant::Utf8(Utf8Constant { string }), end),
            None => return Err(ClassFileError::InvalidJavaCesu8),
        }
    } else if tag == 15 {
        let (k, q) = match read_u8(bytes, p) {
            Ok(x) => x,
            Err(e) => return Err(e),
        };
        match ConstantIndex::parse(bytes, q) {
            Ok((i, q)) => (Constant::MethodHandle(MethodHandleConstant { reference_kind: k, reference_index: i }), q),
            Err(e) => return Err(e),
        }
    } else if tag == 16 {
        match ConstantIndex::parse(bytes, p) {
            Ok((i, q)) => (Constant::MethodType(MethodTypeConstant { descriptor_index: i }), q),
            Err(e) => return Err(e),
        }
    } else {
        return Err(ClassFileError::UnknownConstantTag(tag));
    };
    vec.push(info);
    if tag == 5 || tag == 6 {
        vec.push(Constant::Unusable);
    }
    assert(vec@.map_values(|c: Constant| c@) =~= before + spec_constant(bytes@, pos as int)->Ok_0.0);
    Ok(q)
}


/// Prefixes the entries of a parse outcome with `acc`.
pub open spec fn prepend_constants(
    acc: Seq<SpecConstant>,
    r: Result<(Seq<SpecConstant>, int), ClassFileError>,
) -> Result<(Seq<SpecConstant>, int), ClassFileError> {
    match r {
        Ok((rest, q)) => Ok((acc + rest, q)),
        Err(e) => Err(e),
    }
}

/// The UTF-8 entry at an index, if that entry is one.
pub open spec fn spec_get_utf8(pool: Seq<SpecConstant>, idx: ConstantIndex) -> Option<Seq<char>> {
    match spec_get_info(pool, idx) {
        Some(SpecConstant::Utf8(cs)) => Some(cs),
        _ => None,
    }
}

/// The class entry at an index, if that entry is one.
pub open spec fn spec_get_class(pool: Seq<SpecConstant>, idx: ConstantIndex) -> Option<ClassConstant> {
    match spec_get_info(pool, idx) {
        Some(SpecConstant::Class(c)) => Some(c),
        _ => None,
    }
}

/// The name-and-type entry at an index, if that entry is one.
pub open spec fn spec_get_name_and_type(pool: Seq<SpecConstant>, idx: ConstantIndex) -> Option<NameAndTypeConstant> {
    match spec_get_info(pool, idx) {
        Some(SpecConstant::NameAndType(c)) => Some(c),
        _ => None,
    }
}

proof fn lemma_constants_step(s: Seq<u8>, p: int, n: nat)
    requires
        n > 0,
    ensures
        match spec_constant(s, p) {
            Ok((cs, q)) => spec_constants(s, p, n) == prepend_constants(cs, spec_constants(s, q, (n - 1) as nat)),
            Err(e) => spec_constants(s, p, n) == Err::<(Seq<SpecConstant>, int), ClassFileError>(e),
        },
{
}

impl ConstantPool {
    /// Reads a constant pool at `pos`. A count of zero is left out: the
    /// entry count is the count minus one, which has no value there.
    pub(crate) fn parse(bytes: &[u8], pos: usize) -> (r: Result<(ConstantPool, usize), ClassFileError>)
        requires
            pos <= bytes@.len(),
            spec_u16(bytes@, pos as int) matches Ok((c, _)) ==> c != 0,
        ensures
            agrees_view(r, spec_constant_pool(bytes@, pos as int)),
    {
        let (count, start) = match read_u16(bytes, pos) {
            Ok(x) => x,
            Err(e) => return Err(e),
        };
        let mut vec: Vec<Constant> = Vec::new();
        let mut cur = start;
        let mut i: u16 = 1;
        while i < count
            invariant
                1 <= i <= count,
                count != 0,
                start <= cur <= bytes@.len(),
                spec_constant_pool(bytes@, pos as int) == spec_constants(bytes@, start as int, (count - 1) as nat),
                spec_constants(bytes@, start as int, (count - 1) as nat) == prepend_constants(
                    vec@.map_values(|c: Constant| c@),
                    spec_constants(bytes@, cur as int, (count - i) as nat),
                ),
            decreases count - i,
        {
            let ghost before = vec@.map_values(|c: Constant| c@);
            proof {
                lemma_constants_step(bytes@, cur as int, (count - i) as nat);
            }
            match parse_constant(bytes, cur, &mut vec) {
                Ok(q) => {
                    proof {
                        let sc = spec_constant(bytes@, cur as int);
                        assert(sc is Ok);
                        let cs = sc->Ok_0.0;
                        assert(sc->Ok_0.1 == q as int);
                        assert(cur < q);
                        assert(vec@.map_values(|c: Constant| c@) == before + cs);
                        lemma_constants_step(bytes@, cur as int, (count - i) as nat);
                        assert(before + cs + spec_constants(bytes@, q as int, (count - i - 1) as nat)->Ok_0.0
                            =~= before + (cs + spec_constants(bytes@, q as int, (count - i - 1) as nat)->Ok_0.0));
                    }
                    cur = q;
                },
                Err(e) => {
                    return Err(e);
                },
            }
            i = i + 1;
        }
        assert(vec@.map_values(|c: Constant| c@) + Seq::<SpecConstant>::empty() =~= vec@.map_values(|c: Constant| c@));
        Ok((ConstantPool { vec }, cur))
    }

    /// The entry at a (1-based) index.
    pub fn get_info(&self, idx: ConstantIndex) -> (r: Option<&Constant>)
        ensures
            match spec_get_info(self@, idx) {
                Some(c) => r matches Some(x) && x@ == c,
                None => r is None,
            },
    {
        if idx.0 > 0 && ((idx.0 - 1) as usize) < self.vec.len() {
            Some(&self.vec[(idx.0 - 1) as usize])
        } else {
            None
        }
    }

    /// The number of entries, counting the second slot of each `long` and
    /// `double` entry.
    pub fn len(&self) -> (r: usize)
        ensures
            r == self@.len(),
    {
        self.vec.len()
    }

    /// The string of the UTF-8 entry at an index.
    pub fn get_utf8(&self, idx: ConstantIndex) -> (r: Option<&str>)
        ensures
            match spec_get_utf8(self@, idx) {
                Some(cs) => r matches Some(x) && x@ == cs,
                None => r is None,
            },
    {
        match self.get_info(idx) {
            Some(Constant::Utf8(c)) => Some(c.string.as_str()),
            _ => None,
        }
    }

    /// The class entry at an index.
    pub fn get_class(&self, idx: ConstantIndex) -> (r: Option<&ClassConstant>)
        ensures
            match spec_get_class(self@, idx) {
                Some(c) => r matches Some(x) && *x == c,
                None => r is None,
            },
    {
        match self.get_info(idx) {
            Some(Constant::Class(c)) => Some(c),
            _ => None,
        }
    }

    /// The name-and-type entry at an index.
    pub fn get_name_and_type(&self, idx: ConstantIndex) -> (r: Option<&NameAndTypeConstant>)
        ensures
            match spec_get_name_and_type(self@, idx) {
                Some(c) => r matches Some(x) && *x == c,
                None => r is None,
            },
    {
        match self.get_info(idx) {
            Some(Constant::NameAndType(c)) => Some(c),
            _ => None,
        }
    }
}


impl Constant {
    /// A copy of this entry.
    pub fn duplicate(&self) -> (r: Constant)
        ensures
            r@ == self@,
    {
        match self {
            Constant::Class(c) => Constant::Class(*c),
            Constant::FieldRef(c) => Constant::FieldRef(*c),
            Constant::MethodRef(c) => Constant::MethodRef(*c),
            Constant::InterfaceMethodRef(c) => Constant::InterfaceMethodRef(*c),
            Constant::String(c) => Constant::String(*c),
            Constant::Integer(c) => Constant::Integer(*c),
            Constant::Float(c) => Constant::Float(*c),
            Constant::Long(c) => Constant::Long(*c),
            Constant::Double(c) => Constant::Double(*c),
            Constant::NameAndType(c) => Constant::NameAndType(*c),
            Constant::Utf8(c) => Constant::Utf8(Utf8Constant { string: c.string.clone() }),
            Constant::MethodHandle(c) => Constant::MethodHandle(*c),
            Constant::MethodType(c) => Constant::MethodType(*c),
            Constant::InvokeDynamic(c) => Constant::InvokeDynamic(*c),
            Constant::Unusable => Constant::Unusable,
        }
    }
}

impl ConstantPool {
    /// A copy of this pool.
    pub fn duplicate(&self) -> (r: ConstantPool)
        ensures
            r@ == self@,
    {
        let mut vec: Vec<Constant> = Vec::new();
        let mut i: usize = 0;
        while i < self.vec.len()
            invariant
                i <= self.vec@.len(),
                vec@.len() == i,
                forall|k: int| 0 <= k < i ==> #[trigger] vec@[k]@ == self.vec@[k]@,
            decreases self.vec@.len() - i,
        {
            vec.push(self.vec[i].duplicate());
            i = i + 1;
        }
        let r = ConstantPool { vec };
        assert(r@ =~= self@);
        r
    }
}

} // verus!
