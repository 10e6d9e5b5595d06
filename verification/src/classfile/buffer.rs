//! Big-endian reading of fixed-width integers from byte slices.
use vstd::prelude::*;
use byteorder::{BigEndian, ByteOrder, NativeEndian};
use crate::classfile::error::ClassFileError;

verus! {

/// The unsigned big-endian value of the two bytes at `p`.
pub open spec fn be16(s: Seq<u8>, p: int) -> int {
    s[p] as int * 256 + s[p + 1] as int
}

/// The unsigned big-endian value of the four bytes at `p`.
pub open spec fn be32(s: Seq<u8>, p: int) -> int {
    be16(s, p) * 65536 + be16(s, p + 2)
}

/// The unsigned big-endian value of the eight bytes at `p`.
pub open spec fn be64(s: Seq<u8>, p: int) -> int {
    be32(s, p) * 4294967296 + be32(s, p + 4)
}

/// The unsigned little-endian value of the four bytes at `p`.
pub open spec fn le32(s: Seq<u8>, p: int) -> int {
    s[p] as int + s[p + 1] as int * 256 + s[p + 2] as int * 65536 + s[p + 3] as int * 16777216
}

/// Two's complement reading of an unsigned value below `modulus`.
pub open spec fn signed(v: int, modulus: int) -> int {
    if v >= modulus / 2 { v - modulus } else { v }
}

/// The outcome of reading `n` bytes at `p`: the position after them, or
/// end of input.
pub open spec fn spec_take(s: Seq<u8>, p: int, n: int) -> Result<int, ClassFileError> {
    if 0 <= p && p + n <= s.len() { Ok(p + n) } else { Err(ClassFileError::UnexpectedEof) }
}

/// Reads a byte.
pub open spec fn spec_u8(s: Seq<u8>, p: int) -> Result<(u8, int), ClassFileError> {
    match spec_take(s, p, 1) { Ok(q) => Ok((s[p], q)), Err(e) => Err(e) }
}

/// Reads a big-endian `u16`.
pub open spec fn spec_u16(s: Seq<u8>, p: int) -> Result<(u16, int), ClassFileError> {
    match spec_take(s, p, 2) { Ok(q) => Ok((be16(s, p) as u16, q)), Err(e) => Err(e) }
}

/// Reads a big-endian `u32`.
pub open spec fn spec_u32(s: Seq<u8>, p: int) -> Result<(u32, int), ClassFileError> {
    match spec_take(s, p, 4) { Ok(q) => Ok((be32(s, p) as u32, q)), Err(e) => Err(e) }
}

/// Reads a big-endian `u64`.
pub open spec fn spec_u64(s: Seq<u8>, p: int) -> Result<(u64, int), ClassFileError> {
    match spec_take(s, p, 8) { Ok(q) => Ok((be64(s, p) as u64, q)), Err(e) => Err(e) }
}

/// Reads a signed byte.
pub open spec fn spec_i8(s: Seq<u8>, p: int) -> Result<(i8, int), ClassFileError> {
    match spec_take(s, p, 1) { Ok(q) => Ok((signed(s[p] as int, 0x100) as i8, q)), Err(e) => Err(e) }
}

/// Reads a big-endian `i16`.
pub open spec fn spec_i16(s: Seq<u8>, p: int) -> Result<(i16, int), ClassFileError> {
    match spec_take(s, p, 2) { Ok(q) => Ok((signed(be16(s, p), 0x1_0000) as i16, q)), Err(e) => Err(e) }
}

/// Reads a big-endian `i32`.
pub open spec fn spec_i32(s: Seq<u8>, p: int) -> Result<(i32, int), ClassFileError> {
    match spec_take(s, p, 4) { Ok(q) => Ok((signed(be32(s, p), 0x1_0000_0000) as i32, q)), Err(e) => Err(e) }
}

/// Reads a big-endian `i64`.
pub open spec fn spec_i64(s: Seq<u8>, p: int) -> Result<(i64, int), ClassFileError> {
    match spec_take(s, p, 8) { Ok(q) => Ok((signed(be64(s, p), 0x1_0000_0000_0000_0000) as i64, q)), Err(e) => Err(e) }
}

/// An executable read result (value and position) agrees with a spec one.
pub open spec fn agrees<T>(r: Result<(T, usize), ClassFileError>, s: Result<(T, int), ClassFileError>) -> bool {
    match r {
        Ok((v, q)) => s == Ok::<(T, int), ClassFileError>((v, q as int)),
        Err(e) => s == Err::<(T, int), ClassFileError>(e),
    }
}

/// `byteorder`'s `BigEndian::read_u16` on the bytes at `pos`: the big-endian
/// value of the two bytes there.
#[verifier::external_body]
fn be_read_u16(buf: &[u8], pos: usize) -> (r: u16)
    requires
        pos + 2 <= buf@.len(),
    ensures
        r as int == be16(buf@, pos as int),
{
    <BigEndian as ByteOrder>::read_u16(&buf[pos..])
}

/// `byteorder`'s `BigEndian::read_u32` on the bytes at `pos`: the big-endian
/// value of the four bytes there.
#[verifier::external_body]
fn be_read_u32(buf: &[u8], pos: usize) -> (r: u32)
    requires
        pos + 4 <= buf@.len(),
    ensures
        r as int == be32(buf@, pos as int),
{
    <BigEndian as ByteOrder>::read_u32(&buf[pos..])
}

/// `byteorder`'s `BigEndian::read_u64` on the bytes at `pos`: the big-endian
/// value of the eight bytes there.
#[verifier::external_body]
fn be_read_u64(buf: &[u8], pos: usize) -> (r: u64)
    requires
        pos + 8 <= buf@.len(),
    ensures
        r as int == be64(buf@, pos as int),
{
    <BigEndian as ByteOrder>::read_u64(&buf[pos..])
}

/// `byteorder`'s `NativeEndian::read_u32` on the bytes at `pos`. Which byte
/// order the machine has is not stated: the value is the big-endian or the
/// little-endian reading of the four bytes.
#[verifier::external_body]
fn native_read_u32(buf: &[u8], pos: usize) -> (r: u32)
    requires
        pos + 4 <= buf@.len(),
    ensures
        r as int == be32(buf@, pos as int) || r as int == le32(buf@, pos as int),
{
    <NativeEndian as ByteOrder>::read_u32(&buf[pos..])
}

/// Reads a byte at `pos`.
pub fn read_u8(buf: &[u8], pos: usize) -> (r: Result<(u8, usize), ClassFileError>)
    ensures
        agrees(r, spec_u8(buf@, pos as int)),
{
    if pos < buf.len() { Ok((buf[pos], pos + 1)) } else { Err(ClassFileError::UnexpectedEof) }
}

/// Reads a signed byte at `pos`.
pub fn read_i8(buf: &[u8], pos: usize) -> (r: Result<(i8, usize), ClassFileError>)
    ensures
        agrees(r, spec_i8(buf@, pos as int)),
{
    if pos < buf.len() {
        let b = buf[pos];
        let v: i8 = if b >= 128 { (b as i16 - 256) as i8 } else { b as i8 };
        Ok((v, pos + 1))
    } else {
        Err(ClassFileError::UnexpectedEof)
    }
}

/// Reads a big-endian `u16` at `pos`.
pub fn read_u16(buf: &[u8], pos: usize) -> (r: Result<(u16, usize), ClassFileError>)
    ensures
        agrees(r, spec_u16(buf@, pos as int)),
{
    if pos <= buf.len() && buf.len() - pos >= 2 {
        Ok((be_read_u16(buf, pos), pos + 2))
    } else {
        Err(ClassFileError::UnexpectedEof)
    }
}

/// Reads a big-endian `i16` at `pos`.
pub fn read_i16(buf: &[u8], pos: usize) -> (r: Result<(i16, usize), ClassFileError>)
    ensures
        agrees(r, spec_i16(buf@, pos as int)),
{
    if pos <= buf.len() && buf.len() - pos >= 2 {
        let u = be_read_u16(buf, pos);
        let v: i16 = if u >= 32768 { (u as i32 - 65536) as i16 } else { u as i16 };
        Ok((v, pos + 2))
    } else {
        Err(ClassFileError::UnexpectedEof)
    }
}

/// Reads a big-endian `u32` at `pos`.
pub fn read_u32(buf: &[u8], pos: usize) -> (r: Result<(u32, usize), ClassFileError>)
    ensures
        agrees(r, spec_u32(buf@, pos as int)),
{
    if pos <= buf.len() && buf.len() - pos >= 4 {
        Ok((be_read_u32(buf, pos), pos + 4))
    } else {
        Err(ClassFileError::UnexpectedEof)
    }
}

/// Reads a big-endian `i32` at `pos`.
pub fn read_i32(buf: &[u8], pos: usize) -> (r: Result<(i32, usize), ClassFileError>)
    ensures
        agrees(r, spec_i32(buf@, pos as int)),
{
    if pos <= buf.len() && buf.len() - pos >= 4 {
        let u = be_read_u32(buf, pos);
        let v: i32 = if u >= 0x8000_0000 { (u as i64 - 0x1_0000_0000) as i32 } else { u as i32 };
        Ok((v, pos + 4))
    } else {
        Err(ClassFileError::UnexpectedEof)
    }
}

/// Reads a big-endian `u64` at `pos`.
pub fn read_u64(buf: &[u8], pos: usize) -> (r: Result<(u64, usize), ClassFileError>)
    ensures
        agrees(r, spec_u64(buf@, pos as int)),
{
    if pos <= buf.len() && buf.len() - pos >= 8 {
        Ok((be_read_u64(buf, pos), pos + 8))
    } else {
        Err(ClassFileError::UnexpectedEof)
    }
}

/// Reads a big-endian `i64` at `pos`.
pub fn read_i64(buf: &[u8], pos: usize) -> (r: Result<(i64, usize), ClassFileError>)
    ensures
        agrees(r, spec_i64(buf@, pos as int)),
{
    if pos <= buf.len() && buf.len() - pos >= 8 {
        let u = be_read_u64(buf, pos);
        let v: i64 = if u >= 0x8000_0000_0000_0000 {
            (u as i128 - 0x1_0000_0000_0000_0000) as i64
        } else {
            u as i64
        };
        Ok((v, pos + 8))
    } else {
        Err(ClassFileError::UnexpectedEof)
    }
}

/// Reads a `u32` in the machine's byte order at `pos`; see `native_read_u32`.
pub fn read_native_u32(buf: &[u8], pos: usize) -> (r: Result<(u32, usize), ClassFileError>)
    ensures
        match r {
            Ok((v, q)) => pos + 4 <= buf@.len() && q == pos + 4 && (v as int == be32(buf@, pos as int)
                || v as int == le32(buf@, pos as int)),
            Err(e) => e == ClassFileError::UnexpectedEof && pos + 4 > buf@.len(),
        },
{
    if pos <= buf.len() && buf.len() - pos >= 4 {
        Ok((native_read_u32(buf, pos), pos + 4))
    } else {
        Err(ClassFileError::UnexpectedEof)
    }
}

} // verus!

verus! {

/// An executable read result agrees, through views, with a spec one.
pub open spec fn agrees_view<T: View>(
    r: Result<(T, usize), ClassFileError>,
    s: Result<(T::V, int), ClassFileError>,
) -> bool {
    match r {
        Ok((v, q)) => s == Ok::<(T::V, int), ClassFileError>((v@, q as int)),
        Err(e) => s == Err::<(T::V, int), ClassFileError>(e),
    }
}

} // verus!

verus! {

/// A copy of the bytes from `start` to `end`.
pub fn copy_range(bytes: &[u8], start: usize, end: usize) -> (r: Vec<u8>)
    requires
        start <= end <= bytes@.len(),
    ensures
        r@ == bytes@.subrange(start as int, end as int),
{
    let mut v: Vec<u8> = Vec::new();
    let mut i = start;
    while i < end
        invariant
            start <= i <= end <= bytes@.len(),
            v@ == bytes@.subrange(start as int, i as int),
        decreases end - i,
    {
        v.push(bytes[i]);
        i = i + 1;
        assert(v@ =~= bytes@.subrange(start as int, i as int));
    }
    v
}

} // verus!
