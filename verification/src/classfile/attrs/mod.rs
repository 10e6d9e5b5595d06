//! Attributes of classes, fields, methods and code (JVM specification,
//! section 4.7), read as named raw byte strings and decoded on request.
use vstd::prelude::*;
use crate::classfile::error::ClassFileError;
use crate::classfile::buffer::{copy_range, read_u16, read_u32, spec_u16, spec_u32, spec_take};
use crate::classfile::constant_pool::{
    ConstantIndex, ConstantPool, SpecConstant, spec_index, spec_get_utf8,
};
use crate::text::str_eq;

pub mod code;
pub mod stack_map_table;
pub mod stack_map_laws;

verus! {

/// The mathematical value of an attribute list: each attribute's name and
/// body bytes, in order, and the constant pool they refer to.
pub struct SpecAttributes {
    pub attrs: Seq<(Seq<char>, Seq<u8>)>,
    pub consts: Seq<SpecConstant>,
}

/// A list of attributes, with the constant pool their indices refer to.
#[derive(Debug)]
pub struct Attributes {
    attrs: Vec<(String, Vec<u8>)>,
    consts: ConstantPool,
}

impl View for Attributes {
    type V = SpecAttributes;

    closed spec fn view(&self) -> SpecAttributes {
        SpecAttributes {
            attrs: self.attrs@.map_values(|a: (String, Vec<u8>)| (a.0@, a.1@)),
            consts: self.consts@,
        }
    }
}

/// The body of one attribute, not yet decoded.
#[derive(Debug)]
pub struct RawAttribute {
    pub(crate) bytes: Vec<u8>,
}

impl View for RawAttribute {
    type V = Seq<u8>;

    closed spec fn view(&self) -> Seq<u8> {
        self.bytes@
    }
}

impl RawAttribute {
    /// The body bytes.
    pub fn as_ref(&self) -> (r: &[u8])
        ensures
            r@ == self@,
    {
        self.bytes.as_slice()
    }
}

/// Reads an attribute header at `p`: the name index, then the body.
pub open spec fn spec_attribute_header(s: Seq<u8>, p: int) -> Result<(ConstantIndex, Seq<u8>, int), ClassFileError> {
    match spec_index(s, p) {
        Ok((idx, q)) => match spec_u32(s, q) {
            Ok((len, r)) => match spec_take(s, r, len as int) {
                Ok(t) => Ok((idx, s.subrange(r, t), t)),
                Err(e) => Err(e),
            },
            Err(e) => Err(e),
        },
        Err(e) => Err(e),
    }
}

/// Every one of the `n` attributes at `p` whose name index could be read
/// names a UTF-8 entry of the pool. The reader stops on any other input.
pub open spec fn spec_attribute_names_known(s: Seq<u8>, p: int, n: nat, pool: Seq<SpecConstant>) -> bool
    decreases n,
{
    n == 0 || match spec_index(s, p) {
        Ok((idx, _)) => spec_get_utf8(pool, idx) is Some && match spec_attribute_header(s, p) {
            Ok((_, _, q)) => spec_attribute_names_known(s, q, (n - 1) as nat, pool),
            Err(_) => true,
        },
        Err(_) => true,
    }
}

/// Reads `n` attributes at `p`, naming each by the pool.
pub open spec fn spec_attribute_list(s: Seq<u8>, p: int, n: nat, pool: Seq<SpecConstant>) -> Result<(Seq<(Seq<char>, Seq<u8>)>, int), ClassFileError>
    decreases n,
{
    if n == 0 {
        Ok((Seq::empty(), p))
    } else {
        match spec_attribute_header(s, p) {
            Ok((idx, body, q)) => match spec_attribute_list(s, q, (n - 1) as nat, pool) {
                Ok((rest, r)) => Ok((seq![(spec_get_utf8(pool, idx)->0, body)] + rest, r)),
                Err(e) => Err(e),
            },
            Err(e) => Err(e),
        }
    }
}

/// Whether the names of the `n` attributes at `p` that can be read are all
/// in the pool.
fn attribute_names_known(bytes: &[u8], p: usize, n: u16, consts: &ConstantPool) -> (r: bool)
    ensures
        r == spec_attribute_names_known(bytes@, p as int, n as nat, consts@),
    decreases n,
{
    if n == 0 {
        return true;
    }
    let (idx, q) = match ConstantIndex::parse(bytes, p) {
        Ok(x) => x,
        Err(_) => return true,
    };
    if consts.get_utf8(idx).is_none() {
        return false;
    }
    let (len, r) = match read_u32(bytes, q) {
        Ok(x) => x,
        Err(_) => return true,
    };
    if bytes.len() - r < len as usize {
        return true;
    }
    attribute_names_known(bytes, r + len as usize, n - 1, consts)
}

/// Whether the names of the attributes counted at `p` are all in the pool
/// (see `spec_attributes_names_known`).
pub(crate) fn attributes_names_known(bytes: &[u8], p: usize, consts: &ConstantPool) -> (r: bool)
    ensures
        r == spec_attributes_names_known(bytes@, p as int, consts@),
{
    match read_u16(bytes, p) {
        Ok((n, q)) => attribute_names_known(bytes, q, n, consts),
        Err(_) => true,
    }
}

/// Reads an attribute count and that many attributes at `p`.
pub open spec fn spec_attributes(s: Seq<u8>, p: int, pool: Seq<SpecConstant>) -> Result<(SpecAttributes, int), ClassFileError> {
    match spec_u16(s, p) {
        Ok((n, q)) => match spec_attribute_list(s, q, n as nat, pool) {
            Ok((attrs, r)) => Ok((SpecAttributes { attrs, consts: pool }, r)),
            Err(e) => Err(e),
        },
        Err(e) => Err(e),
    }
}

/// The names of the attributes read at `p` are all in the pool.
pub open spec fn spec_attributes_names_known(s: Seq<u8>, p: int, pool: Seq<SpecConstant>) -> bool {
    match spec_u16(s, p) {
        Ok((n, q)) => spec_attribute_names_known(s, q, n as nat, pool),
        Err(_) => true,
    }
}

/// The body of the first attribute with the given name.
pub open spec fn spec_first_named(attrs: Seq<(Seq<char>, Seq<u8>)>, name: Seq<char>) -> Option<Seq<u8>>
    decreases attrs.len(),
{
    if attrs.len() == 0 {
        None
    } else if attrs[0].0 == name {
        Some(attrs[0].1)
    } else {
        spec_first_named(attrs.drop_first(), name)
    }
}

pub open spec fn prepend_attrs(
    acc: Seq<(Seq<char>, Seq<u8>)>,
    r: Result<(Seq<(Seq<char>, Seq<u8>)>, int), ClassFileError>,
) -> Result<(Seq<(Seq<char>, Seq<u8>)>, int), ClassFileError> {
    match r {
        Ok((rest, q)) => Ok((acc + rest, q)),
        Err(e) => Err(e),
    }
}

proof fn lemma_attribute_list_step(s: Seq<u8>, p: int, n: nat, pool: Seq<SpecConstant>)
    requires
        n > 0,
    ensures
        match spec_attribute_header(s, p) {
            Ok((idx, body, q)) => spec_attribute_list(s, p, n, pool) == prepend_attrs(
                seq![(spec_get_utf8(pool, idx)->0, body)],
                spec_attribute_list(s, q, (n - 1) as nat, pool),
            ),
            Err(e) => spec_attribute_list(s, p, n, pool) == Err::<(Seq<(Seq<char>, Seq<u8>)>, int), ClassFileError>(e),
        },
{
}

impl Attributes {
    /// Reads an attribute count and that many attributes at `pos`; the names
    /// are looked up in `consts`, which the list keeps a copy of.
    pub(crate) fn parse(bytes: &[u8], pos: usize, consts: &ConstantPool) -> (r: Result<(Attributes, usize), ClassFileError>)
        requires
            pos <= bytes@.len(),
            spec_attributes_names_known(bytes@, pos as int, consts@),
        ensures
            match spec_attributes(bytes@, pos as int, consts@) {
                Ok((a, q)) => r matches Ok((x, y)) && x@ == a && y as int == q && pos <= q <= bytes@.len(),
                Err(e) => r == Err::<(Attributes, usize), ClassFileError>(e),
            },
    {
        let (count, start) = match read_u16(bytes, pos) {
            Ok(x) => x,
            Err(e) => return Err(e),
        };
        let mut attrs: Vec<(String, Vec<u8>)> = Vec::new();
        let mut cur = start;
        let mut i: u16 = 0;
        while i < count
            invariant
                i <= count,
                start <= cur <= bytes@.len(),
                pos <= start,
                spec_attribute_names_known(bytes@, cur as int, (count - i) as nat, consts@),
                spec_attributes(bytes@, pos as int, consts@) == (match spec_attribute_list(bytes@, start as int, count as nat, consts@) {
                    Ok((a, r)) => Ok((SpecAttributes { attrs: a, consts: consts@ }, r)),
                    Err(e) => Err::<(SpecAttributes, int), ClassFileError>(e),
                }),
                spec_attribute_list(bytes@, start as int, count as nat, consts@) == prepend_attrs(
                    attrs@.map_values(|a: (String, Vec<u8>)| (a.0@, a.1@)),
                    spec_attribute_list(bytes@, cur as int, (count - i) as nat, consts@),
                ),
            decreases count - i,
        {
            proof {
                lemma_attribute_list_step(bytes@, cur as int, (count - i) as nat, consts@);
            }
            let (idx, q) = match ConstantIndex::parse(bytes, cur) {
                Ok(x) => x,
                Err(e) => return Err(e),
            };
            let name = consts.get_utf8(idx).unwrap();
            let (len, r) = match read_u32(bytes, q) {
                Ok(x) => x,
                Err(e) => return Err(e),
            };
            if bytes.len() - r < len as usize {
                return Err(ClassFileError::UnexpectedEof);
            }
            let end = r + len as usize;
            let body = copy_range(bytes, r, end);
            let ghost before = attrs@.map_values(|a: (String, Vec<u8>)| (a.0@, a.1@));
            let name_string = name.to_owned();
            attrs.push((name_string, body));
            proof {
                let item = (spec_get_utf8(consts@, idx)->0, bytes@.subrange(r as int, end as int));
                assert(attrs@.map_values(|a: (String, Vec<u8>)| (a.0@, a.1@)) =~= before.push(item));
                let tail = spec_attribute_list(bytes@, end as int, (count - i - 1) as nat, consts@);
                if tail is Ok {
                    assert(before + (seq![item] + tail->Ok_0.0) =~= before.push(item) + tail->Ok_0.0);
                }
            }
            cur = end;
            i = i + 1;
        }
        let a = Attributes { attrs, consts: consts.duplicate() };
        assert(a@.attrs =~= a@.attrs + Seq::<(Seq<char>, Seq<u8>)>::empty());
        Ok((a, cur))
    }

    /// The body of the first attribute with the given name.
    pub fn get_raw(&self, name: &str) -> (r: Option<RawAttribute>)
        ensures
            match spec_first_named(self@.attrs, name@) {
                Some(b) => r matches Some(x) && x@ == b,
                None => r is None,
            },
    {
        let mut i: usize = 0;
        assert(self@.attrs.subrange(0, self@.attrs.len() as int) =~= self@.attrs);
        while i < self.attrs.len()
            invariant
                i <= self.attrs@.len(),
                spec_first_named(self@.attrs, name@) == spec_first_named(self@.attrs.subrange(i as int, self@.attrs.len() as int), name@),
            decreases self.attrs@.len() - i,
        {
            let ghost rest = self@.attrs.subrange(i as int, self@.attrs.len() as int);
            if str_eq(self.attrs[i].0.as_str(), name) {
                let bytes = self.attrs[i].1.clone();
                assert(bytes@ =~= self.attrs@[i as int].1@);
                return Some(RawAttribute { bytes });
            }
            assert(rest.drop_first() =~= self@.attrs.subrange(i + 1, self@.attrs.len() as int));
            i = i + 1;
        }
        None
    }

    /// The constant pool the attributes refer to.
    pub fn consts(&self) -> (r: &ConstantPool)
        ensures
            r@ == self@.consts,
    {
        &self.consts
    }
}

/// The `ConstantValue` attribute of a field.
#[derive(Clone, Copy, Debug, PartialEq, Eq, Structural)]
pub struct ConstantValue {
    pub value_index: ConstantIndex,
}

impl ConstantValue {
    pub fn decode(raw: &RawAttribute) -> (r: Result<ConstantValue, ClassFileError>)
        ensures
            match spec_index(raw@, 0) {
                Ok((i, _)) => r == Ok::<ConstantValue, ClassFileError>(ConstantValue { value_index: i }),
                Err(e) => r == Err::<ConstantValue, ClassFileError>(e),
            },
    {
        match ConstantIndex::parse(raw.as_ref(), 0) {
            Ok((value_index, _)) => Ok(ConstantValue { value_index }),
            Err(e) => Err(e),
        }
    }
}

/// The `SourceFile` attribute of a class.
#[derive(Debug)]
pub struct SourceFile {
    index: ConstantIndex,
    consts: ConstantPool,
}

impl SourceFile {
    pub closed spec fn spec_index(&self) -> ConstantIndex {
        self.index
    }

    pub closed spec fn spec_consts(&self) -> Seq<SpecConstant> {
        self.consts@
    }

    pub fn decode(raw: &RawAttribute, consts: &ConstantPool) -> (r: Result<SourceFile, ClassFileError>)
        ensures
            match spec_index(raw@, 0) {
                Ok((i, _)) => r matches Ok(x) && x.spec_index() == i && x.spec_consts() == consts@,
                Err(e) => r matches Err(x) && x == e,
            },
    {
        match ConstantIndex::parse(raw.as_ref(), 0) {
            Ok((index, _)) => Ok(SourceFile { index, consts: consts.duplicate() }),
            Err(e) => Err(e),
        }
    }

    pub fn index(&self) -> (r: ConstantIndex)
        ensures
            r == self.spec_index(),
    {
        self.index
    }

    /// The file name; the index must name a UTF-8 entry.
    pub fn as_str(&self) -> (r: &str)
        requires
            spec_get_utf8(self.spec_consts(), self.spec_index()) is Some,
        ensures
            r@ == spec_get_utf8(self.spec_consts(), self.spec_index())->0,
    {
        self.consts.get_utf8(self.index).unwrap()
    }
}

/// One line number entry.
#[derive(Clone, Copy, Debug, PartialEq, Eq, Structural)]
pub struct LineNumberTableEntry {
    pub start_pc: u16,
    pub line_number: u16,
}

/// The `LineNumberTable` attribute of a method's code.
#[derive(Debug)]
pub struct LineNumberTable {
    pub entries: Vec<LineNumberTableEntry>,
}

/// Reads `n` line number entries at `p`.
pub open spec fn spec_line_numbers(s: Seq<u8>, p: int, n: nat) -> Result<Seq<LineNumberTableEntry>, ClassFileError>
    decreases n,
{
    if n == 0 {
        Ok(Seq::empty())
    } else {
        match spec_u16(s, p) {
            Ok((a, q)) => match spec_u16(s, q) {
                Ok((b, r)) => match spec_line_numbers(s, r, (n - 1) as nat) {
                    Ok(rest) => Ok(seq![LineNumberTableEntry { start_pc: a, line_number: b }] + rest),
                    Err(e) => Err(e),
                },
                Err(e) => Err(e),
            },
            Err(e) => Err(e),
        }
    }
}

/// Reads a line number table body.
pub open spec fn spec_line_number_table(s: Seq<u8>) -> Result<Seq<LineNumberTableEntry>, ClassFileError> {
    match spec_u16(s, 0) {
        Ok((n, q)) => spec_line_numbers(s, q, n as nat),
        Err(e) => Err(e),
    }
}

impl LineNumberTable {
    pub fn decode(raw: &RawAttribute) -> (r: Result<LineNumberTable, ClassFileError>)
        ensures
            match spec_line_number_table(raw@) {
                Ok(es) => r matches Ok(x) && x.entries@ == es,
                Err(e) => r matches Err(x) && x == e,
            },
    {
        let bytes = raw.as_ref();
        let (len, start) = match read_u16(bytes, 0) {
            Ok(x) => x,
            Err(e) => return Err(e),
        };
        let mut entries: Vec<LineNumberTableEntry> = Vec::new();
        let mut cur = start;
        let mut i: u16 = 0;
        while i < len
            invariant
                i <= len,
                cur <= bytes@.len(),
                bytes@ == raw@,
                spec_line_number_table(bytes@) == spec_line_numbers(bytes@, start as int, len as nat),
                spec_line_numbers(bytes@, start as int, len as nat) == (match spec_line_numbers(bytes@, cur as int, (len - i) as nat) {
                    Ok(rest) => Ok(entries@ + rest),
                    Err(e) => Err::<Seq<LineNumberTableEntry>, ClassFileError>(e),
                }),
            decreases len - i,
        {
            let (a, q) = match read_u16(bytes, cur) {
                Ok(x) => x,
                Err(e) => return Err(e),
            };
            let (b, r) = match read_u16(bytes, q) {
                Ok(x) => x,
                Err(e) => return Err(e),
            };
            let ghost before = entries@;
            let ent = LineNumberTableEntry { start_pc: a, line_number: b };
            entries.push(ent);
            proof {
                let tail = spec_line_numbers(bytes@, r as int, (len - i - 1) as nat);
                if tail is Ok {
                    assert(before + (seq![ent] + tail->Ok_0) =~= entries@ + tail->Ok_0);
                }
            }
            cur = r;
            i = i + 1;
        }
        assert(entries@ + Seq::<LineNumberTableEntry>::empty() =~= entries@);
        Ok(LineNumberTable { entries })
    }
}

} // verus!
