//! The class file format's encoding of stack map frames, written out from
//! the format's tables, and the law that frames are read as the bytes that
//! encode them.
use vstd::prelude::*;
use crate::classfile::buffer::{be16, spec_u16};
use crate::classfile::constant_pool::ConstantIndex;
use crate::classfile::attrs::stack_map_table::{
    RawVerificationType, SpecRawFrame, spec_vti, spec_vtis, spec_frame, spec_u16_outcome,
};
use crate::classfile::opcode_laws::u16_bytes;

verus! {

/// The bytes of a verification type: its tag (`ITEM_Top` 0, `ITEM_Integer`
/// 1, `ITEM_Float` 2, `ITEM_Double` 3, `ITEM_Long` 4, `ITEM_Null` 5,
/// `ITEM_UninitializedThis` 6, `ITEM_Object` 7, `ITEM_Uninitialized` 8),
/// followed by a class index or a code offset where it has one.
pub open spec fn vti_encoding(t: RawVerificationType) -> Seq<u8> {
    match t {
        RawVerificationType::Top => seq![0u8],
        RawVerificationType::Integer => seq![1u8],
        RawVerificationType::Float => seq![2u8],
        RawVerificationType::Double => seq![3u8],
        RawVerificationType::Long => seq![4u8],
        RawVerificationType::Null => seq![5u8],
        RawVerificationType::UninitializedThis => seq![6u8],
        RawVerificationType::Object(i) => seq![7u8] + u16_bytes(i.0),
        RawVerificationType::Uninitialized(v) => seq![8u8] + u16_bytes(v),
    }
}

/// The bytes of verification types one after the other.
pub open spec fn vtis_encoding(ts: Seq<RawVerificationType>) -> Seq<u8>
    decreases ts.len(),
{
    if ts.len() == 0 {
        Seq::empty()
    } else {
        vti_encoding(ts[0]) + vtis_encoding(ts.drop_first())
    }
}

/// The bytes of a frame: its frame type (0 to 63 for `same_frame`, 64 to
/// 127 for `same_locals_1_stack_item_frame`, 247 for its extended form, 248
/// to 250 for `chop_frame`, 251 for `same_frame_extended`, 252 to 254 for
/// `append_frame`, 255 for `full_frame`), then its fields.
pub open spec fn frame_encoding(f: SpecRawFrame) -> Seq<u8> {
    match f {
        SpecRawFrame::SameFrame { offset_delta } => seq![offset_delta],
        SpecRawFrame::SameLocals1StackItem { offset_delta, stack_item } =>
            seq![(offset_delta + 64) as u8] + vti_encoding(stack_item),
        SpecRawFrame::SameLocals1StackItemExtended { offset_delta, stack_item } =>
            seq![247u8] + u16_bytes(offset_delta) + vti_encoding(stack_item),
        SpecRawFrame::ChopFrame { k, offset_delta } => seq![(251 - k) as u8] + u16_bytes(offset_delta),
        SpecRawFrame::SameFrameExtended { offset_delta } => seq![251u8] + u16_bytes(offset_delta),
        SpecRawFrame::AppendFrame { offset_delta, locals } =>
            seq![(251 + locals.len()) as u8] + u16_bytes(offset_delta) + vtis_encoding(locals),
        SpecRawFrame::FullFrame { offset_delta, locals, stack_items } =>
            seq![255u8] + u16_bytes(offset_delta) + u16_bytes(locals.len() as u16) + vtis_encoding(locals)
                + u16_bytes(stack_items.len() as u16) + vtis_encoding(stack_items),
    }
}

/// Two bytes read as an unsigned big-endian value are that value's bytes.
proof fn lemma_u16_outcome(s: Seq<u8>, q: int)
    requires
        spec_u16_outcome(s, q) is Ok,
    ensures
        ({
            let (v, r) = spec_u16_outcome(s, q)->Ok_0;
            &&& r == q + 2
            &&& 0 <= q
            &&& r <= s.len()
            &&& u16_bytes(v) == s.subrange(q, r)
        }),
{
    let a = s[q];
    let b = s[q + 1];
    let v = be16(s, q);
    assert(v / 256 == a as int && v % 256 == b as int && 0 <= v < 0x1_0000) by (nonlinear_arith)
        requires
            v == a as int * 256 + b as int,
            0 <= a < 256,
            0 <= b < 256,
    ;
    assert(u16_bytes(v as u16) =~= s.subrange(q, q + 2));
}

/// A verification type is read as its bytes.
pub proof fn law_verification_type_encoding(s: Seq<u8>, p: int)
    ensures
        spec_vti(s, p) matches Ok((t, q)) ==> 0 <= p < q <= s.len() && s.subrange(p, q) == vti_encoding(t),
{
    if let Ok((t, q)) = spec_vti(s, p) {
        if s[p] == 7u8 || s[p] == 8u8 {
            lemma_u16_outcome(s, p + 1);
            assert(s.subrange(p, q) =~= seq![s[p]] + s.subrange(p + 1, q));
        } else {
            assert(s.subrange(p, q) =~= seq![s[p]]);
        }
    }
}

/// `n` verification types are read as their bytes, one after the other.
pub proof fn law_verification_types_encoding(s: Seq<u8>, p: int, n: nat)
    requires
        0 <= p <= s.len(),
    ensures
        spec_vtis(s, p, n) matches Ok((ts, q)) ==> 0 <= p <= q <= s.len() && ts.len() == n
            && s.subrange(p, q) == vtis_encoding(ts),
    decreases n,
{
    if n == 0 {
        if let Ok((ts, q)) = spec_vtis(s, p, n) {
            assert(ts =~= Seq::<RawVerificationType>::empty());
        }
    } else if let Ok((ts, q)) = spec_vtis(s, p, n) {
        law_verification_type_encoding(s, p);
        let (v, r) = spec_vti(s, p)->Ok_0;
        law_verification_types_encoding(s, r, (n - 1) as nat);
        let rest = spec_vtis(s, r, (n - 1) as nat)->Ok_0.0;
        assert(ts == seq![v] + rest);
        assert(ts[0] == v);
        assert(ts.drop_first() =~= rest);
        assert(s.subrange(p, q) =~= s.subrange(p, r) + s.subrange(r, q));
    }
}

/// A frame is read as its bytes: the frame type, then its fields.
pub proof fn law_frame_encoding(s: Seq<u8>, p: int)
    ensures
        spec_frame(s, p) matches Ok((f, q)) ==> 0 <= p < q <= s.len() && s.subrange(p, q) == frame_encoding(f),
{
    if let Ok((f, q)) = spec_frame(s, p) {
        let t = s[p];
        let q1 = p + 1;
        if t <= 63 {
            assert(s.subrange(p, q) =~= seq![t]);
        } else if t <= 127 {
            law_verification_type_encoding(s, q1);
            assert(s.subrange(p, q) =~= seq![t] + s.subrange(q1, q));
        } else if t == 247 {
            lemma_u16_outcome(s, q1);
            let r = q1 + 2;
            law_verification_type_encoding(s, r);
            assert(s.subrange(p, q) =~= seq![t] + s.subrange(q1, r) + s.subrange(r, q));
        } else if 248 <= t <= 251 {
            lemma_u16_outcome(s, q1);
            assert(s.subrange(p, q) =~= seq![t] + s.subrange(q1, q));
        } else if 252 <= t <= 254 {
            lemma_u16_outcome(s, q1);
            let r = q1 + 2;
            law_verification_types_encoding(s, r, (t - 251) as nat);
            assert(s.subrange(p, q) =~= seq![t] + s.subrange(q1, r) + s.subrange(r, q));
        } else {
            lemma_u16_outcome(s, q1);
            let r = q1 + 2;
            lemma_u16_outcome(s, r);
            let (nl, r2) = spec_u16_outcome(s, r)->Ok_0;
            law_verification_types_encoding(s, r2, nl as nat);
            let r3 = spec_vtis(s, r2, nl as nat)->Ok_0.1;
            lemma_u16_outcome(s, r3);
            let (ns, r4) = spec_u16_outcome(s, r3)->Ok_0;
            law_verification_types_encoding(s, r4, ns as nat);
            assert(s.subrange(p, q) =~= seq![t] + s.subrange(q1, r) + s.subrange(r, r2) + s.subrange(r2, r3)
                + s.subrange(r3, r4) + s.subrange(r4, q));
        }
    }
}

} // verus!
