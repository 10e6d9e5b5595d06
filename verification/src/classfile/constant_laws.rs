//! The class file format's encoding of constant pool entries, written out
//! from the format's tag table, and the law that entries are read as the
//! bytes that encode them.
use vstd::prelude::*;
use crate::classfile::buffer::{be16, be32};
use crate::classfile::constant_pool::{
    SpecConstant, spec_constant, spec_constant_body, java_cesu8_decode,
};
use crate::classfile::opcode_laws::{u16_bytes, i32_bytes, lemma_u16_read, lemma_i32_read};

verus! {

/// The tag of an entry, from the class file format's table: `Utf8` 1,
/// `Integer` 3, `Float` 4, `Long` 5, `Double` 6, `Class` 7, `String` 8,
/// `Fieldref` 9, `Methodref` 10, `InterfaceMethodref` 11, `NameAndType` 12,
/// `MethodHandle` 15, `MethodType` 16, `InvokeDynamic` 18.
pub open spec fn jvm_constant_tag(c: SpecConstant) -> Option<u8> {
    match c {
        SpecConstant::Utf8(_) => Some(1u8),
        SpecConstant::Integer(_) => Some(3u8),
        SpecConstant::Float(_) => Some(4u8),
        SpecConstant::Long(_) => Some(5u8),
        SpecConstant::Double(_) => Some(6u8),
        SpecConstant::Class(_) => Some(7u8),
        SpecConstant::String(_) => Some(8u8),
        SpecConstant::FieldRef(_) => Some(9u8),
        SpecConstant::MethodRef(_) => Some(10u8),
        SpecConstant::InterfaceMethodRef(_) => Some(11u8),
        SpecConstant::NameAndType(_) => Some(12u8),
        SpecConstant::MethodHandle(_) => Some(15u8),
        SpecConstant::MethodType(_) => Some(16u8),
        SpecConstant::InvokeDynamic(_) => Some(18u8),
        SpecConstant::Unusable => None,
    }
}

/// The four bytes of an unsigned 32-bit value, high byte first.
pub open spec fn u32_bytes(v: u32) -> Seq<u8> {
    seq![(v / 0x100_0000) as u8, ((v / 0x1_0000) % 0x100) as u8, ((v / 0x100) % 0x100) as u8, (v % 0x100) as u8]
}

/// The bytes after the tag of an entry whose fields are indices, a kind
/// byte or a 32-bit value; `None` for the others.
pub open spec fn constant_fields(c: SpecConstant) -> Option<Seq<u8>> {
    match c {
        SpecConstant::Class(k) => Some(u16_bytes(k.name_index.0)),
        SpecConstant::String(k) => Some(u16_bytes(k.string_index.0)),
        SpecConstant::MethodType(k) => Some(u16_bytes(k.descriptor_index.0)),
        SpecConstant::FieldRef(k) => Some(u16_bytes(k.class_index.0) + u16_bytes(k.name_and_type_index.0)),
        SpecConstant::MethodRef(k) => Some(u16_bytes(k.class_index.0) + u16_bytes(k.name_and_type_index.0)),
        SpecConstant::InterfaceMethodRef(k) => Some(u16_bytes(k.class_index.0) + u16_bytes(k.name_and_type_index.0)),
        SpecConstant::NameAndType(k) => Some(u16_bytes(k.name_index.0) + u16_bytes(k.descriptor_index.0)),
        SpecConstant::InvokeDynamic(k) => Some(u16_bytes(k.bootstrap_method_attr_index.0) + u16_bytes(k.name_and_type_index.0)),
        SpecConstant::MethodHandle(k) => Some(seq![k.reference_kind] + u16_bytes(k.reference_index.0)),
        SpecConstant::Integer(k) => Some(i32_bytes(k.value)),
        SpecConstant::Float(k) => Some(u32_bytes(k.bits)),
        _ => None,
    }
}

/// Four bytes read as an unsigned big-endian value are that value's bytes.
proof fn lemma_u32_read(s: Seq<u8>, q: int)
    requires
        0 <= q,
        q + 4 <= s.len(),
    ensures
        u32_bytes(be32(s, q) as u32) == s.subrange(q, q + 4),
{
    let a = s[q] as int;
    let b = s[q + 1] as int;
    let c = s[q + 2] as int;
    let d = s[q + 3] as int;
    let u = be32(s, q);
    assert(u == ((a * 256 + b) * 65536) + (c * 256 + d));
    assert(u / 0x100_0000 == a && (u / 0x1_0000) % 0x100 == b && (u / 0x100) % 0x100 == c
        && u % 0x100 == d && 0 <= u < 0x1_0000_0000) by (nonlinear_arith)
        requires
            u == ((a * 256 + b) * 65536) + (c * 256 + d),
            0 <= a < 256,
            0 <= b < 256,
            0 <= c < 256,
            0 <= d < 256,
    ;
    assert(u32_bytes(u as u32) =~= s.subrange(q, q + 4));
}

/// Entries are read as the class file format encodes them: the tag byte is
/// the entry's tag, `long` and `double` entries (and only they) take two
/// slots, the second unusable, the fields that are indices, kind bytes or
/// 32-bit values are their bytes, and a `Utf8` entry's text is the decoding
/// of the bytes its length counts.
pub proof fn law_constants_follow_the_format(s: Seq<u8>, p: int)
    ensures
        spec_constant(s, p) matches Ok((cs, q)) ==> {
            &&& 0 <= p < q <= s.len()
            &&& 1 <= cs.len() <= 2
            &&& jvm_constant_tag(cs[0]) == Some(s[p])
            &&& (cs.len() == 2 <==> (cs[0] is Long || cs[0] is Double))
            &&& (cs.len() == 2 ==> cs[1] is Unusable)
            &&& (constant_fields(cs[0]) matches Some(b) ==> s.subrange(p + 1, q) == b)
            &&& (cs[0] matches SpecConstant::Utf8(text) ==> p + 3 <= q && q - (p + 3) == be16(s, p + 1)
                && java_cesu8_decode(s.subrange(p + 3, q)) == Some(text))
        },
{
    reveal(spec_constant_body);
    if let Ok((cs, q)) = spec_constant(s, p) {
        let tag = s[p];
        let r = p + 1;
        let b = s.subrange(r, q);
        if tag == 7u8 || tag == 8u8 || tag == 16u8 {
            lemma_u16_read(s, r);
            assert(b =~= s.subrange(r, r + 2));
        } else if tag == 9u8 || tag == 10u8 || tag == 11u8 || tag == 12u8 || tag == 18u8 {
            lemma_u16_read(s, r);
            lemma_u16_read(s, r + 2);
            assert(b =~= s.subrange(r, r + 2) + s.subrange(r + 2, r + 4));
        } else if tag == 15u8 {
            lemma_u16_read(s, r + 1);
            assert(b =~= seq![s[r]] + s.subrange(r + 1, r + 3));
        } else if tag == 3u8 {
            lemma_i32_read(s, r);
        } else if tag == 4u8 {
            lemma_u32_read(s, r);
        }
    }
}

} // verus!
