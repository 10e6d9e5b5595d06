//! The `StackMapTable` attribute of a method's code, decoded frame by frame.
use vstd::prelude::*;
use crate::classfile::error::ClassFileError;
use crate::classfile::buffer::{copy_range, read_u8, read_u16, spec_u16};
use crate::classfile::constant_pool::{
    ConstantIndex, ConstantPool, SpecConstant, Utf8Constant, spec_index, spec_get_class, spec_get_utf8,
};
use crate::classfile::attrs::RawAttribute;

verus! {

/// The type of a local variable or stack slot as the bytes give it: an
/// object type by the constant pool index of its class.
#[derive(Clone, Copy, Debug, PartialEq, Eq, Structural)]
pub enum RawVerificationType {
    Top,
    Integer,
    Float,
    Long,
    Double,
    Null,
    UninitializedThis,
    Object(ConstantIndex),
    Uninitialized(u16),
}

/// One frame of a stack map table as the bytes give it.
#[derive(Debug, PartialEq, Eq)]
pub enum RawFrame {
    SameFrame { offset_delta: u8 },
    SameLocals1StackItem { offset_delta: u8, stack_item: RawVerificationType },
    SameLocals1StackItemExtended { offset_delta: u16, stack_item: RawVerificationType },
    ChopFrame { k: u8, offset_delta: u16 },
    SameFrameExtended { offset_delta: u16 },
    AppendFrame { offset_delta: u16, locals: Vec<RawVerificationType> },
    FullFrame { offset_delta: u16, locals: Vec<RawVerificationType>, stack_items: Vec<RawVerificationType> },
}

/// The mathematical value of a frame as the bytes give it.
pub enum SpecRawFrame {
    SameFrame { offset_delta: u8 },
    SameLocals1StackItem { offset_delta: u8, stack_item: RawVerificationType },
    SameLocals1StackItemExtended { offset_delta: u16, stack_item: RawVerificationType },
    ChopFrame { k: u8, offset_delta: u16 },
    SameFrameExtended { offset_delta: u16 },
    AppendFrame { offset_delta: u16, locals: Seq<RawVerificationType> },
    FullFrame { offset_delta: u16, locals: Seq<RawVerificationType>, stack_items: Seq<RawVerificationType> },
}

impl View for RawFrame {
    type V = SpecRawFrame;

    open spec fn view(&self) -> SpecRawFrame {
        match self {
            RawFrame::SameFrame { offset_delta } => SpecRawFrame::SameFrame { offset_delta: *offset_delta },
            RawFrame::SameLocals1StackItem { offset_delta, stack_item } =>
                SpecRawFrame::SameLocals1StackItem { offset_delta: *offset_delta, stack_item: *stack_item },
            RawFrame::SameLocals1StackItemExtended { offset_delta, stack_item } =>
                SpecRawFrame::SameLocals1StackItemExtended { offset_delta: *offset_delta, stack_item: *stack_item },
            RawFrame::ChopFrame { k, offset_delta } => SpecRawFrame::ChopFrame { k: *k, offset_delta: *offset_delta },
            RawFrame::SameFrameExtended { offset_delta } => SpecRawFrame::SameFrameExtended { offset_delta: *offset_delta },
            RawFrame::AppendFrame { offset_delta, locals } =>
                SpecRawFrame::AppendFrame { offset_delta: *offset_delta, locals: locals@ },
            RawFrame::FullFrame { offset_delta, locals, stack_items } =>
                SpecRawFrame::FullFrame { offset_delta: *offset_delta, locals: locals@, stack_items: stack_items@ },
        }
    }
}

/// The type of a local variable or stack slot in a frame; an object type by
/// the name of its class.
#[derive(Clone, Debug, PartialEq, Eq)]
pub enum VerificationTypeInfo {
    Top,
    Integer,
    Float,
    Long,
    Double,
    Null,
    UninitializedThis,
    Object(Utf8Constant),
    Uninitialized(u16),
}

/// The mathematical value of a verification type.
pub enum SpecVerificationType {
    Top,
    Integer,
    Float,
    Long,
    Double,
    Null,
    UninitializedThis,
    Object(Seq<char>),
    Uninitialized(u16),
}

impl View for VerificationTypeInfo {
    type V = SpecVerificationType;

    open spec fn view(&self) -> SpecVerificationType {
        match self {
            VerificationTypeInfo::Top => SpecVerificationType::Top,
            VerificationTypeInfo::Integer => SpecVerificationType::Integer,
            VerificationTypeInfo::Float => SpecVerificationType::Float,
            VerificationTypeInfo::Long => SpecVerificationType::Long,
            VerificationTypeInfo::Double => SpecVerificationType::Double,
            VerificationTypeInfo::Null => SpecVerificationType::Null,
            VerificationTypeInfo::UninitializedThis => SpecVerificationType::UninitializedThis,
            VerificationTypeInfo::Object(c) => SpecVerificationType::Object(c.string@),
            VerificationTypeInfo::Uninitialized(v) => SpecVerificationType::Uninitialized(*v),
        }
    }
}

/// One frame of a stack map table.
#[derive(Debug, PartialEq, Eq)]
pub enum StackMapTableEntry {
    SameFrame { offset_delta: u8 },
    SameLocals1StackItem { offset_delta: u8, stack_item: VerificationTypeInfo },
    SameLocals1StackItemExtended { offset_delta: u16, stack_item: VerificationTypeInfo },
    ChopFrame { k: u8, offset_delta: u16 },
    SameFrameExtended { offset_delta: u16 },
    AppendFrame { offset_delta: u16, locals: Vec<VerificationTypeInfo> },
    FullFrame { offset_delta: u16, locals: Vec<VerificationTypeInfo>, stack_items: Vec<VerificationTypeInfo> },
}

/// A frame of a stack map table, as decoded frame by frame.
pub type Entry = StackMapTableEntry;

/// The mathematical value of a frame.
pub enum SpecEntry {
    SameFrame { offset_delta: u8 },
    SameLocals1StackItem { offset_delta: u8, stack_item: SpecVerificationType },
    SameLocals1StackItemExtended { offset_delta: u16, stack_item: SpecVerificationType },
    ChopFrame { k: u8, offset_delta: u16 },
    SameFrameExtended { offset_delta: u16 },
    AppendFrame { offset_delta: u16, locals: Seq<SpecVerificationType> },
    FullFrame { offset_delta: u16, locals: Seq<SpecVerificationType>, stack_items: Seq<SpecVerificationType> },
}

/// The values of a list of verification types.
pub open spec fn types_view(v: Seq<VerificationTypeInfo>) -> Seq<SpecVerificationType> {
    v.map_values(|t: VerificationTypeInfo| t@)
}

impl View for StackMapTableEntry {
    type V = SpecEntry;

    open spec fn view(&self) -> SpecEntry {
        match self {
            StackMapTableEntry::SameFrame { offset_delta } => SpecEntry::SameFrame { offset_delta: *offset_delta },
            StackMapTableEntry::SameLocals1StackItem { offset_delta, stack_item } =>
                SpecEntry::SameLocals1StackItem { offset_delta: *offset_delta, stack_item: stack_item@ },
            StackMapTableEntry::SameLocals1StackItemExtended { offset_delta, stack_item } =>
                SpecEntry::SameLocals1StackItemExtended { offset_delta: *offset_delta, stack_item: stack_item@ },
            StackMapTableEntry::ChopFrame { k, offset_delta } => SpecEntry::ChopFrame { k: *k, offset_delta: *offset_delta },
            StackMapTableEntry::SameFrameExtended { offset_delta } => SpecEntry::SameFrameExtended { offset_delta: *offset_delta },
            StackMapTableEntry::AppendFrame { offset_delta, locals } =>
                SpecEntry::AppendFrame { offset_delta: *offset_delta, locals: types_view(locals@) },
            StackMapTableEntry::FullFrame { offset_delta, locals, stack_items } =>
                SpecEntry::FullFrame {
                    offset_delta: *offset_delta,
                    locals: types_view(locals@),
                    stack_items: types_view(stack_items@),
                },
        }
    }
}

/// The name of the class that the class entry at `i` names.
pub open spec fn class_name_of(pool: Seq<SpecConstant>, i: ConstantIndex) -> Option<Seq<char>> {
    match spec_get_class(pool, i) {
        Some(c) => spec_get_utf8(pool, c.name_index),
        None => None,
    }
}

/// Whether an object type's class index names a class whose name is there.
pub open spec fn type_resolvable(pool: Seq<SpecConstant>, t: RawVerificationType) -> bool {
    t matches RawVerificationType::Object(i) ==> class_name_of(pool, i) is Some
}

/// A verification type with an object type's class index replaced by the
/// class's name.
pub open spec fn resolve_type(pool: Seq<SpecConstant>, t: RawVerificationType) -> SpecVerificationType {
    match t {
        RawVerificationType::Top => SpecVerificationType::Top,
        RawVerificationType::Integer => SpecVerificationType::Integer,
        RawVerificationType::Float => SpecVerificationType::Float,
        RawVerificationType::Long => SpecVerificationType::Long,
        RawVerificationType::Double => SpecVerificationType::Double,
        RawVerificationType::Null => SpecVerificationType::Null,
        RawVerificationType::UninitializedThis => SpecVerificationType::UninitializedThis,
        RawVerificationType::Object(i) => SpecVerificationType::Object(class_name_of(pool, i)->0),
        RawVerificationType::Uninitialized(v) => SpecVerificationType::Uninitialized(v),
    }
}

/// The verification types of a list, resolved.
pub open spec fn resolve_types(pool: Seq<SpecConstant>, ts: Seq<RawVerificationType>) -> Seq<SpecVerificationType> {
    ts.map_values(|t: RawVerificationType| resolve_type(pool, t))
}

/// Whether every object type in a list can be resolved.
pub open spec fn types_resolvable(pool: Seq<SpecConstant>, ts: Seq<RawVerificationType>) -> bool {
    forall|i: int| 0 <= i < ts.len() ==> #[trigger] type_resolvable(pool, ts[i])
}

/// Whether every object type in a frame can be resolved.
pub open spec fn frame_resolvable(pool: Seq<SpecConstant>, f: SpecRawFrame) -> bool {
    match f {
        SpecRawFrame::SameLocals1StackItem { stack_item, .. } => type_resolvable(pool, stack_item),
        SpecRawFrame::SameLocals1StackItemExtended { stack_item, .. } => type_resolvable(pool, stack_item),
        SpecRawFrame::AppendFrame { locals, .. } => types_resolvable(pool, locals),
        SpecRawFrame::FullFrame { locals, stack_items, .. } =>
            types_resolvable(pool, locals) && types_resolvable(pool, stack_items),
        _ => true,
    }
}

/// A frame with its object types resolved.
pub open spec fn resolve_frame(pool: Seq<SpecConstant>, f: SpecRawFrame) -> SpecEntry {
    match f {
        SpecRawFrame::SameFrame { offset_delta } => SpecEntry::SameFrame { offset_delta },
        SpecRawFrame::SameLocals1StackItem { offset_delta, stack_item } =>
            SpecEntry::SameLocals1StackItem { offset_delta, stack_item: resolve_type(pool, stack_item) },
        SpecRawFrame::SameLocals1StackItemExtended { offset_delta, stack_item } =>
            SpecEntry::SameLocals1StackItemExtended { offset_delta, stack_item: resolve_type(pool, stack_item) },
        SpecRawFrame::ChopFrame { k, offset_delta } => SpecEntry::ChopFrame { k, offset_delta },
        SpecRawFrame::SameFrameExtended { offset_delta } => SpecEntry::SameFrameExtended { offset_delta },
        SpecRawFrame::AppendFrame { offset_delta, locals } =>
            SpecEntry::AppendFrame { offset_delta, locals: resolve_types(pool, locals) },
        SpecRawFrame::FullFrame { offset_delta, locals, stack_items } => SpecEntry::FullFrame {
            offset_delta,
            locals: resolve_types(pool, locals),
            stack_items: resolve_types(pool, stack_items),
        },
    }
}

/// Reads one frame at `p` and resolves its object types through `pool`.
pub open spec fn spec_entry_at(s: Seq<u8>, pool: Seq<SpecConstant>, p: int) -> Outcome<SpecEntry> {
    match spec_frame(s, p) {
        Ok((f, q)) => Ok((resolve_frame(pool, f), q)),
        Err(e) => Err(e),
    }
}

/// Whether the frame at `p`, if it can be read, names only classes that
/// are there.
pub open spec fn entry_resolvable(s: Seq<u8>, pool: Seq<SpecConstant>, p: int) -> bool {
    spec_frame(s, p) matches Ok((f, _)) ==> frame_resolvable(pool, f)
}

/// The outcome of reading at `p`: a value and the position after it, or an
/// error and the position the reader was left at (the end for truncated
/// input, just after an unknown tag otherwise).
pub type Outcome<T> = Result<(T, int), (ClassFileError, int)>;

/// Reads a verification type at `p`.
pub open spec fn spec_vti(s: Seq<u8>, p: int) -> Outcome<RawVerificationType> {
    if !(0 <= p < s.len()) {
        Err((ClassFileError::UnexpectedEof, s.len() as int))
    } else {
        let tag = s[p];
        let q = p + 1;
        if tag == 0u8 { Ok((RawVerificationType::Top, q)) }
        else if tag == 1u8 { Ok((RawVerificationType::Integer, q)) }
        else if tag == 2u8 { Ok((RawVerificationType::Float, q)) }
        else if tag == 3u8 { Ok((RawVerificationType::Double, q)) }
        else if tag == 4u8 { Ok((RawVerificationType::Long, q)) }
        else if tag == 5u8 { Ok((RawVerificationType::Null, q)) }
        else if tag == 6u8 { Ok((RawVerificationType::UninitializedThis, q)) }
        else if tag == 7u8 {
            match spec_index(s, q) {
                Ok((i, r)) => Ok((RawVerificationType::Object(i), r)),
                Err(e) => Err((e, s.len() as int)),
            }
        } else if tag == 8u8 {
            match spec_u16(s, q) {
                Ok((v, r)) => Ok((RawVerificationType::Uninitialized(v), r)),
                Err(e) => Err((e, s.len() as int)),
            }
        } else {
            Err((ClassFileError::UnknownVerificationTypeTag(tag), q))
        }
    }
}

/// Reads `n` verification types at `p`.
pub open spec fn spec_vtis(s: Seq<u8>, p: int, n: nat) -> Outcome<Seq<RawVerificationType>>
    decreases n,
{
    if n == 0 {
        Ok((Seq::empty(), p))
    } else {
        match spec_vti(s, p) {
            Ok((v, q)) => match spec_vtis(s, q, (n - 1) as nat) {
                Ok((rest, r)) => Ok((seq![v] + rest, r)),
                Err(e) => Err(e),
            },
            Err(e) => Err(e),
        }
    }
}

/// Reads a `u16` at `p`; a truncated read leaves the reader at the end.
pub open spec fn spec_u16_outcome(s: Seq<u8>, p: int) -> Outcome<u16> {
    match spec_u16(s, p) {
        Ok((v, q)) => Ok((v, q)),
        Err(e) => Err((e, s.len() as int)),
    }
}

/// Reads one frame at `p`.
pub open spec fn spec_frame(s: Seq<u8>, p: int) -> Outcome<SpecRawFrame> {
    if !(0 <= p < s.len()) {
        Err((ClassFileError::UnexpectedEof, s.len() as int))
    } else {
        let t = s[p];
        let q = p + 1;
        if t <= 63 {
            Ok((SpecRawFrame::SameFrame { offset_delta: t }, q))
        } else if t <= 127 {
            match spec_vti(s, q) {
                Ok((v, r)) => Ok((SpecRawFrame::SameLocals1StackItem { offset_delta: (t - 64) as u8, stack_item: v }, r)),
                Err(e) => Err(e),
            }
        } else if t == 247 {
            match spec_u16_outcome(s, q) {
                Ok((d, r)) => match spec_vti(s, r) {
                    Ok((v, w)) => Ok((SpecRawFrame::SameLocals1StackItemExtended { offset_delta: d, stack_item: v }, w)),
                    Err(e) => Err(e),
                },
                Err(e) => Err(e),
            }
        } else if 248 <= t <= 250 {
            match spec_u16_outcome(s, q) {
                Ok((d, r)) => Ok((SpecRawFrame::ChopFrame { offset_delta: d, k: (251 - t) as u8 }, r)),
                Err(e) => Err(e),
            }
        } else if t == 251 {
            match spec_u16_outcome(s, q) {
                Ok((d, r)) => Ok((SpecRawFrame::SameFrameExtended { offset_delta: d }, r)),
                Err(e) => Err(e),
            }
        } else if 252 <= t <= 254 {
            match spec_u16_outcome(s, q) {
                Ok((d, r)) => match spec_vtis(s, r, (t - 251) as nat) {
                    Ok((locals, w)) => Ok((SpecRawFrame::AppendFrame { offset_delta: d, locals }, w)),
                    Err(e) => Err(e),
                },
                Err(e) => Err(e),
            }
        } else if t == 255 {
            match spec_u16_outcome(s, q) {
                Ok((d, r)) => match spec_u16_outcome(s, r) {
                    Ok((nl, r2)) => match spec_vtis(s, r2, nl as nat) {
                        Ok((locals, r3)) => match spec_u16_outcome(s, r3) {
                            Ok((ns, r4)) => match spec_vtis(s, r4, ns as nat) {
                                Ok((stack_items, r5)) => Ok((SpecRawFrame::FullFrame { offset_delta: d, locals, stack_items }, r5)),
                                Err(e) => Err(e),
                            },
                            Err(e) => Err(e),
                        },
                        Err(e) => Err(e),
                    },
                    Err(e) => Err(e),
                },
                Err(e) => Err(e),
            }
        } else {
            Err((ClassFileError::UnknownFrameType(t), q))
        }
    }
}

/// Executable counterpart of `Outcome`.
pub open spec fn outcome_agrees<T>(r: Result<(T, usize), (ClassFileError, usize)>, o: Outcome<T>) -> bool {
    match r {
        Ok((v, q)) => o == Ok::<(T, int), (ClassFileError, int)>((v, q as int)),
        Err((e, q)) => o == Err::<(T, int), (ClassFileError, int)>((e, q as int)),
    }
}

fn parse_u16_outcome(s: &[u8], p: usize) -> (r: Result<(u16, usize), (ClassFileError, usize)>)
    ensures
        outcome_agrees(r, spec_u16_outcome(s@, p as int)),
{
    match read_u16(s, p) {
        Ok(x) => Ok(x),
        Err(e) => Err((e, s.len())),
    }
}

/// Reads a verification type at `p`.
fn parse_verification_type_info(s: &[u8], p: usize) -> (r: Result<(RawVerificationType, usize), (ClassFileError, usize)>)
    requires
        p <= s@.len(),
    ensures
        outcome_agrees(r, spec_vti(s@, p as int)),
        r matches Ok((_, q)) ==> p < q <= s@.len(),
        r matches Err((_, q)) ==> p <= q <= s@.len(),
{
    let (tag, q) = match read_u8(s, p) {
        Ok(x) => x,
        Err(e) => return Err((e, s.len())),
    };
    if tag == 0 { Ok((RawVerificationType::Top, q)) }
    else if tag == 1 { Ok((RawVerificationType::Integer, q)) }
    else if tag == 2 { Ok((RawVerificationType::Float, q)) }
    else if tag == 3 { Ok((RawVerificationType::Double, q)) }
    else if tag == 4 { Ok((RawVerificationType::Long, q)) }
    else if tag == 5 { Ok((RawVerificationType::Null, q)) }
    else if tag == 6 { Ok((RawVerificationType::UninitializedThis, q)) }
    else if tag == 7 {
        match ConstantIndex::parse(s, q) {
            Ok((i, r)) => Ok((RawVerificationType::Object(i), r)),
            Err(e) => Err((e, s.len())),
        }
    } else if tag == 8 {
        match read_u16(s, q) {
            Ok((v, r)) => Ok((RawVerificationType::Uninitialized(v), r)),
            Err(e) => Err((e, s.len())),
        }
    } else {
        Err((ClassFileError::UnknownVerificationTypeTag(tag), q))
    }
}

/// Reads `n` verification types at `p`.
fn parse_verification_type_infos(s: &[u8], p: usize, n: u16) -> (r: Result<(Vec<RawVerificationType>, usize), (ClassFileError, usize)>)
    requires
        p <= s@.len(),
    ensures
        match spec_vtis(s@, p as int, n as nat) {
            Ok((vs, q)) => r matches Ok((x, y)) && x@ == vs && y as int == q && p <= q <= s@.len(),
            Err((e, q)) => r matches Err((x, y)) && x == e && y as int == q && p <= q <= s@.len(),
        },
{
    let mut out: Vec<RawVerificationType> = Vec::new();
    let mut cur = p;
    let mut i: u16 = 0;
    while i < n
        invariant
            i <= n,
            p <= cur <= s@.len(),
            spec_vtis(s@, p as int, n as nat) == (match spec_vtis(s@, cur as int, (n - i) as nat) {
                Ok((rest, q)) => Ok((out@ + rest, q)),
                Err(e) => Err::<(Seq<RawVerificationType>, int), (ClassFileError, int)>(e),
            }),
        decreases n - i,
    {
        let (v, q) = match parse_verification_type_info(s, cur) {
            Ok(x) => x,
            Err(e) => return Err(e),
        };
        let ghost before = out@;
        out.push(v);
        proof {
            let tail = spec_vtis(s@, q as int, (n - i - 1) as nat);
            if tail is Ok {
                assert(before + (seq![v] + tail->Ok_0.0) =~= out@ + tail->Ok_0.0);
            }
        }
        cur = q;
        i = i + 1;
    }
    assert(out@ + Seq::<RawVerificationType>::empty() =~= out@);
    Ok((out, cur))
}

/// Reads one frame at `p`.
fn parse_stack_map_table_entry(s: &[u8], p: usize) -> (r: Result<(RawFrame, usize), (ClassFileError, usize)>)
    requires
        p <= s@.len(),
    ensures
        match spec_frame(s@, p as int) {
            Ok((v, q)) => r matches Ok((x, y)) && x@ == v && y as int == q && p <= q <= s@.len(),
            Err((e, q)) => r matches Err((x, y)) && x == e && y as int == q && p <= q <= s@.len(),
        },
{
    let (t, q) = match read_u8(s, p) {
        Ok(x) => x,
        Err(e) => return Err((e, s.len())),
    };
    if t <= 63 {
        Ok((RawFrame::SameFrame { offset_delta: t }, q))
    } else if t <= 127 {
        let (v, r) = parse_verification_type_info(s, q)?;
        Ok((RawFrame::SameLocals1StackItem { offset_delta: t - 64, stack_item: v }, r))
    } else if t == 247 {
        let (d, r) = parse_u16_outcome(s, q)?;
        let (v, w) = parse_verification_type_info(s, r)?;
        Ok((RawFrame::SameLocals1StackItemExtended { offset_delta: d, stack_item: v }, w))
    } else if 248 <= t && t <= 250 {
        let (d, r) = parse_u16_outcome(s, q)?;
        Ok((RawFrame::ChopFrame { offset_delta: d, k: 251 - t }, r))
    } else if t == 251 {
        let (d, r) = parse_u16_outcome(s, q)?;
        Ok((RawFrame::SameFrameExtended { offset_delta: d }, r))
    } else if 252 <= t && t <= 254 {
        let (d, r) = parse_u16_outcome(s, q)?;
        let (locals, w) = parse_verification_type_infos(s, r, (t - 251) as u16)?;
        Ok((RawFrame::AppendFrame { offset_delta: d, locals }, w))
    } else if t == 255 {
        let (d, r) = parse_u16_outcome(s, q)?;
        let (nl, r) = parse_u16_outcome(s, r)?;
        let (locals, r) = parse_verification_type_infos(s, r, nl)?;
        let (ns, r) = parse_u16_outcome(s, r)?;
        let (stack_items, r) = parse_verification_type_infos(s, r, ns)?;
        Ok((RawFrame::FullFrame { offset_delta: d, locals, stack_items }, r))
    } else {
        Err((ClassFileError::UnknownFrameType(t), q))
    }
}

/// Whether an object type's class can be named (`type_resolvable`).
fn raw_type_resolvable(t: RawVerificationType, pool: &ConstantPool) -> (r: bool)
    ensures
        r == type_resolvable(pool@, t),
{
    match t {
        RawVerificationType::Object(i) => match pool.get_class(i) {
            Some(c) => pool.get_utf8(c.name_index).is_some(),
            None => false,
        },
        _ => true,
    }
}

/// Whether every object type of a list can be resolved.
fn raw_types_resolvable(ts: &Vec<RawVerificationType>, pool: &ConstantPool) -> (r: bool)
    ensures
        r == types_resolvable(pool@, ts@),
{
    let mut i: usize = 0;
    while i < ts.len()
        invariant
            i <= ts@.len(),
            forall|j: int| 0 <= j < i ==> #[trigger] type_resolvable(pool@, ts@[j]),
        decreases ts@.len() - i,
    {
        if !raw_type_resolvable(ts[i], pool) {
            return false;
        }
        i += 1;
    }
    true
}

/// Whether every object type of a frame can be resolved.
fn raw_frame_resolvable(f: &RawFrame, pool: &ConstantPool) -> (r: bool)
    ensures
        r == frame_resolvable(pool@, f@),
{
    match f {
        RawFrame::SameLocals1StackItem { stack_item, .. } => raw_type_resolvable(*stack_item, pool),
        RawFrame::SameLocals1StackItemExtended { stack_item, .. } => raw_type_resolvable(*stack_item, pool),
        RawFrame::AppendFrame { locals, .. } => raw_types_resolvable(locals, pool),
        RawFrame::FullFrame { locals, stack_items, .. } =>
            raw_types_resolvable(locals, pool) && raw_types_resolvable(stack_items, pool),
        _ => true,
    }
}

/// Replaces an object type's class index by the class's name.
fn resolve_raw_type(t: RawVerificationType, pool: &ConstantPool) -> (r: VerificationTypeInfo)
    requires
        type_resolvable(pool@, t),
    ensures
        r@ == resolve_type(pool@, t),
{
    match t {
        RawVerificationType::Top => VerificationTypeInfo::Top,
        RawVerificationType::Integer => VerificationTypeInfo::Integer,
        RawVerificationType::Float => VerificationTypeInfo::Float,
        RawVerificationType::Long => VerificationTypeInfo::Long,
        RawVerificationType::Double => VerificationTypeInfo::Double,
        RawVerificationType::Null => VerificationTypeInfo::Null,
        RawVerificationType::UninitializedThis => VerificationTypeInfo::UninitializedThis,
        RawVerificationType::Object(i) => {
            let c = pool.get_class(i).unwrap();
            let name = pool.get_utf8(c.name_index).unwrap();
            VerificationTypeInfo::Object(Utf8Constant { string: name.to_owned() })
        },
        RawVerificationType::Uninitialized(v) => VerificationTypeInfo::Uninitialized(v),
    }
}

/// Resolves the object types of a list.
fn resolve_raw_types(ts: &Vec<RawVerificationType>, pool: &ConstantPool) -> (r: Vec<VerificationTypeInfo>)
    requires
        types_resolvable(pool@, ts@),
    ensures
        types_view(r@) == resolve_types(pool@, ts@),
{
    let mut out: Vec<VerificationTypeInfo> = Vec::new();
    let mut i: usize = 0;
    while i < ts.len()
        invariant
            i <= ts@.len(),
            types_resolvable(pool@, ts@),
            types_view(out@) == resolve_types(pool@, ts@.take(i as int)),
        decreases ts@.len() - i,
    {
        assert(type_resolvable(pool@, ts@[i as int]));
        let t = resolve_raw_type(ts[i], pool);
        let ghost before = out@;
        assert(types_view(before).len() == before.len());
        assert(resolve_types(pool@, ts@.take(i as int)).len() == i);
        assert(before.len() == i);
        out.push(t);
        assert(out@ == before.push(t));
        i += 1;
        assert forall|j: int| 0 <= j < i implies #[trigger] types_view(out@)[j] == resolve_types(pool@, ts@.take(i as int))[j] by {
            if j < i - 1 {
                assert(out@[j] == before[j]);
                assert(types_view(before)[j] == resolve_types(pool@, ts@.take(i - 1))[j]);
            }
        }
        assert(types_view(out@) =~= resolve_types(pool@, ts@.take(i as int)));
    }
    assert(ts@.take(i as int) =~= ts@);
    out
}

/// Resolves the object types of a frame.
fn resolve_raw_frame(f: RawFrame, pool: &ConstantPool) -> (r: StackMapTableEntry)
    requires
        frame_resolvable(pool@, f@),
    ensures
        r@ == resolve_frame(pool@, f@),
{
    match f {
        RawFrame::SameFrame { offset_delta } => StackMapTableEntry::SameFrame { offset_delta },
        RawFrame::SameLocals1StackItem { offset_delta, stack_item } =>
            StackMapTableEntry::SameLocals1StackItem { offset_delta, stack_item: resolve_raw_type(stack_item, pool) },
        RawFrame::SameLocals1StackItemExtended { offset_delta, stack_item } =>
            StackMapTableEntry::SameLocals1StackItemExtended { offset_delta, stack_item: resolve_raw_type(stack_item, pool) },
        RawFrame::ChopFrame { k, offset_delta } => StackMapTableEntry::ChopFrame { k, offset_delta },
        RawFrame::SameFrameExtended { offset_delta } => StackMapTableEntry::SameFrameExtended { offset_delta },
        RawFrame::AppendFrame { offset_delta, locals } =>
            StackMapTableEntry::AppendFrame { offset_delta, locals: resolve_raw_types(&locals, pool) },
        RawFrame::FullFrame { offset_delta, locals, stack_items } => StackMapTableEntry::FullFrame {
            offset_delta,
            locals: resolve_raw_types(&locals, pool),
            stack_items: resolve_raw_types(&stack_items, pool),
        },
    }
}

/// A method's stack map table: its frame count and the frame bytes.
#[derive(Debug)]
pub struct StackMapTable {
    count: u16,
    bytes: Vec<u8>,
    consts: ConstantPool,
}

impl StackMapTable {
    pub closed spec fn spec_count(&self) -> u16 {
        self.count
    }

    pub closed spec fn spec_bytes(&self) -> Seq<u8> {
        self.bytes@
    }

    /// The constant pool that names the classes of object types.
    pub closed spec fn spec_pool(&self) -> Seq<SpecConstant> {
        self.consts@
    }

    /// Reads the frame count; the frames are decoded one at a time by
    /// `entries`.
    pub fn decode(raw: &RawAttribute, consts: &ConstantPool) -> (r: Result<StackMapTable, ClassFileError>)
        ensures
            match spec_u16(raw@, 0) {
                Ok((n, q)) => r matches Ok(x) && x.spec_count() == n && x.spec_bytes() == raw@.subrange(q, raw@.len() as int)
                    && x.spec_pool() == consts@,
                Err(e) => r matches Err(x) && x == e,
            },
    {
        let bytes = raw.as_ref();
        let (count, q) = match read_u16(bytes, 0) {
            Ok(x) => x,
            Err(e) => return Err(e),
        };
        let rest = copy_range(bytes, q, bytes.len());
        Ok(StackMapTable { count, bytes: rest, consts: consts.duplicate() })
    }

    pub fn len(&self) -> (r: u16)
        ensures
            r == self.spec_count(),
    {
        self.count
    }

    /// The frames, decoded one by one.
    pub fn entries(&self) -> (r: Entries)
        ensures
            r.spec_count() == self.spec_count(),
            r.spec_bytes() == self.spec_bytes(),
            r.spec_pos() == 0,
            r.spec_pool() == self.spec_pool(),
    {
        let bytes = self.bytes.clone();
        assert(bytes@ =~= self.bytes@);
        Entries { count: self.count, bytes, pos: 0, consts: self.consts.duplicate() }
    }
}

/// The frames of a stack map table still to be decoded.
#[derive(Debug)]
pub struct Entries {
    count: u16,
    bytes: Vec<u8>,
    pos: usize,
    consts: ConstantPool,
}

/// A decoded frame or the error, by value.
pub open spec fn outcome_view(r: Option<Result<Entry, ClassFileError>>) -> Option<Result<SpecEntry, ClassFileError>> {
    match r {
        Some(Ok(x)) => Some(Ok(x@)),
        Some(Err(e)) => Some(Err(e)),
        None => None,
    }
}

/// One step of the frame iterator over `bytes`: with `count` frames left at
/// `pos`, it yields nothing and stays when none are left, and otherwise
/// yields the frame at `pos` (or the error in reading it), counts it, and
/// moves past it.
pub open spec fn next_step(
    bytes: Seq<u8>,
    pool: Seq<SpecConstant>,
    count: nat,
    pos: int,
    r: Option<Result<SpecEntry, ClassFileError>>,
    count2: nat,
    pos2: int,
) -> bool {
    &&& count == 0 ==> r is None && count2 == 0 && pos2 == pos
    &&& count > 0 ==> count2 == count - 1 && match spec_entry_at(bytes, pool, pos) {
        Ok((v, q)) => r == Some(Ok::<SpecEntry, ClassFileError>(v)) && pos2 == q,
        Err((e, q)) => r == Some(Err::<SpecEntry, ClassFileError>(e)) && pos2 == q,
    }
}

/// The `n` frames read one after the other from `pos`.
pub open spec fn frames_from(bytes: Seq<u8>, pool: Seq<SpecConstant>, pos: int, n: nat) -> Seq<Result<SpecEntry, ClassFileError>>
    decreases n,
{
    if n == 0 {
        Seq::empty()
    } else {
        match spec_entry_at(bytes, pool, pos) {
            Ok((v, q)) => seq![Ok::<SpecEntry, ClassFileError>(v)] + frames_from(bytes, pool, q, (n - 1) as nat),
            Err((e, q)) => seq![Err::<SpecEntry, ClassFileError>(e)] + frames_from(bytes, pool, q, (n - 1) as nat),
        }
    }
}

/// The steps from `k` on of a run that has done `k` steps.
proof fn lemma_run_from(
    bytes: Seq<u8>,
    pool: Seq<SpecConstant>,
    counts: Seq<nat>,
    positions: Seq<int>,
    outs: Seq<Option<Result<SpecEntry, ClassFileError>>>,
    k: int,
)
    requires
        counts.len() == outs.len() + 1,
        positions.len() == outs.len() + 1,
        forall|i: int| 0 <= i < outs.len() ==> #[trigger] next_step(
            bytes, pool, counts[i], positions[i], outs[i], counts[i + 1], positions[i + 1]),
        0 <= k <= counts[0],
        k <= outs.len(),
    ensures
        counts[k] == counts[0] - k,
        frames_from(bytes, pool, positions[0], counts[0]).len() == counts[0],
        frames_from(bytes, pool, positions[0], counts[0]).subrange(k, counts[0] as int)
            == frames_from(bytes, pool, positions[k], counts[k]),
        forall|i: int| 0 <= i < k ==> #[trigger] outs[i] == Some(frames_from(bytes, pool, positions[0], counts[0])[i]),
    decreases k,
{
    let f = frames_from(bytes, pool, positions[0], counts[0]);
    lemma_frames_prefix(bytes, pool, positions[0], 0, counts[0]);
    if k > 0 {
        lemma_run_from(bytes, pool, counts, positions, outs, k - 1);
        assert(next_step(bytes, pool, counts[k - 1], positions[k - 1], outs[k - 1], counts[(k - 1) + 1], positions[(k - 1) + 1]));
        let rest = frames_from(bytes, pool, positions[k - 1], counts[k - 1]);
        assert(rest == f.subrange(k - 1, counts[0] as int));
        assert(rest[0] == f[k - 1]);
        assert(rest =~= seq![rest[0]] + frames_from(bytes, pool, positions[k], counts[k]));
        assert(f.subrange(k, counts[0] as int) =~= rest.drop_first());
    } else {
        assert(f.subrange(0, counts[0] as int) =~= f);
    }
}

/// Reading fewer frames reads the first of them.
proof fn lemma_frames_prefix(bytes: Seq<u8>, pool: Seq<SpecConstant>, pos: int, k: nat, n: nat)
    requires
        k <= n,
    ensures
        frames_from(bytes, pool, pos, k) == frames_from(bytes, pool, pos, n).take(k as int),
        frames_from(bytes, pool, pos, n).len() == n,
    decreases n,
{
    if n > 0 {
        let q = match spec_entry_at(bytes, pool, pos) { Ok((_, q)) => q, Err((_, q)) => q };
        if k > 0 {
            lemma_frames_prefix(bytes, pool, q, (k - 1) as nat, (n - 1) as nat);
            assert(frames_from(bytes, pool, pos, k) =~= frames_from(bytes, pool, pos, n).take(k as int));
        } else {
            lemma_frames_prefix(bytes, pool, q, 0, (n - 1) as nat);
            assert(frames_from(bytes, pool, pos, 0) =~= frames_from(bytes, pool, pos, n).take(0));
        }
    }
}

/// The frames iterator yields exactly the table's frames: a run of `next`
/// calls that starts with `count` frames to read at `pos` yields, for its
/// first `count` calls, the frames read back to back from `pos` (or the
/// error in reading each), and `None` on every call after them.
pub proof fn law_entries_yield_each_frame_once(
    bytes: Seq<u8>,
    pool: Seq<SpecConstant>,
    counts: Seq<nat>,
    positions: Seq<int>,
    outs: Seq<Option<Result<SpecEntry, ClassFileError>>>,
)
    requires
        counts.len() == outs.len() + 1,
        positions.len() == outs.len() + 1,
        forall|i: int| 0 <= i < outs.len() ==> #[trigger] next_step(
            bytes, pool, counts[i], positions[i], outs[i], counts[i + 1], positions[i + 1]),
        counts[0] <= outs.len(),
    ensures
        forall|i: int| 0 <= i < counts[0] ==> #[trigger] outs[i] == Some(
            frames_from(bytes, pool, positions[0], counts[0])[i],
        ),
        forall|i: int| counts[0] <= i < outs.len() ==> #[trigger] outs[i] is None,
{
    lemma_run_from(bytes, pool, counts, positions, outs, counts[0] as int);
    lemma_run_drained(bytes, pool, counts, positions, outs, outs.len() as int);
}

/// Once no frames are left, every step yields nothing.
proof fn lemma_run_drained(
    bytes: Seq<u8>,
    pool: Seq<SpecConstant>,
    counts: Seq<nat>,
    positions: Seq<int>,
    outs: Seq<Option<Result<SpecEntry, ClassFileError>>>,
    i: int,
)
    requires
        counts.len() == outs.len() + 1,
        positions.len() == outs.len() + 1,
        forall|j: int| 0 <= j < outs.len() ==> #[trigger] next_step(
            bytes, pool, counts[j], positions[j], outs[j], counts[j + 1], positions[j + 1]),
        counts[0] <= i <= outs.len(),
        counts[counts[0] as int] == 0,
    ensures
        counts[i] == 0,
        forall|j: int| counts[0] <= j < i ==> #[trigger] outs[j] is None,
    decreases i,
{
    if i > counts[0] {
        lemma_run_drained(bytes, pool, counts, positions, outs, i - 1);
        assert(next_step(bytes, pool, counts[i - 1], positions[i - 1], outs[i - 1], counts[(i - 1) + 1], positions[(i - 1) + 1]));
    }
}

impl Entries {
    #[verifier::type_invariant]
    spec fn inv(&self) -> bool {
        self.pos <= self.bytes@.len()
    }

    pub closed spec fn spec_count(&self) -> u16 {
        self.count
    }

    pub closed spec fn spec_bytes(&self) -> Seq<u8> {
        self.bytes@
    }

    pub closed spec fn spec_pos(&self) -> int {
        self.pos as int
    }

    pub closed spec fn spec_pool(&self) -> Seq<SpecConstant> {
        self.consts@
    }

    /// Whether `next` can name the classes of the next frame's object
    /// types, when a frame remains.
    pub fn next_resolvable(&self) -> (r: bool)
        ensures
            r == (self.spec_count() > 0 ==> entry_resolvable(self.spec_bytes(), self.spec_pool(), self.spec_pos())),
    {
        proof {
            use_type_invariant(self);
        }
        if self.count == 0 {
            return true;
        }
        match parse_stack_map_table_entry(self.bytes.as_slice(), self.pos) {
            Ok((f, _)) => raw_frame_resolvable(&f, &self.consts),
            Err(_) => true,
        }
    }

    /// Decodes the next frame, if any remain to be counted. A frame that
    /// cannot be decoded is reported and counted like one that can.
    pub fn next(&mut self) -> (r: Option<Result<Entry, ClassFileError>>)
        requires
            old(self).spec_count() > 0 ==> entry_resolvable(old(self).spec_bytes(), old(self).spec_pool(), old(self).spec_pos()),
        ensures
            final(self).spec_bytes() == old(self).spec_bytes(),
            final(self).spec_pool() == old(self).spec_pool(),
            next_step(
                old(self).spec_bytes(),
                old(self).spec_pool(),
                old(self).spec_count() as nat,
                old(self).spec_pos(),
                outcome_view(r),
                final(self).spec_count() as nat,
                final(self).spec_pos(),
            ),
    {
        proof {
            use_type_invariant(&*self);
        }
        if self.count == 0 {
            return None;
        }
        self.count = self.count - 1;
        match parse_stack_map_table_entry(self.bytes.as_slice(), self.pos) {
            Ok((f, q)) => {
                self.pos = q;
                Some(Ok(resolve_raw_frame(f, &self.consts)))
            },
            Err((e, q)) => {
                self.pos = q;
                Some(Err(e))
            },
        }
    }
}

} // verus!
