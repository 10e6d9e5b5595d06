//! A class file's header is read in the order the class file format lays
//! it out.
use vstd::prelude::*;
use crate::classfile::buffer::be16;
use crate::classfile::access_flags::CLASS_FLAG_BITS;
use crate::classfile::class_file::spec_class_file;
use crate::classfile::constant_pool::spec_constant_pool;

verus! {

/// A class file is read in the format's order: after the magic number, the
/// minor version (bytes 4 and 5), the major version (bytes 6 and 7), the
/// constant pool from byte 8, then the access flags, this class and the
/// super class, two bytes each, big-endian; a super class index of zero
/// means there is none.
pub proof fn law_class_header_follows_the_format(s: Seq<u8>)
    ensures
        spec_class_file(s) matches Ok(cf) ==> {
            &&& cf.version.minor as int == be16(s, 4)
            &&& cf.version.major as int == be16(s, 6)
            &&& spec_constant_pool(s, 8) matches Ok((pool, p)) && {
                &&& cf.constant_pool == pool
                &&& cf.access_flags.bits == (be16(s, p) as u16) & CLASS_FLAG_BITS
                &&& cf.this_class.0 as int == be16(s, p + 2)
                &&& (cf.super_class is None <==> be16(s, p + 4) == 0)
                &&& (cf.super_class matches Some(i) ==> i.0 as int == be16(s, p + 4))
            }
        },
{
    if let Ok(cf) = spec_class_file(s) {
        assert(0 <= be16(s, 4) < 0x1_0000) by (nonlinear_arith)
            requires be16(s, 4) == s[4] as int * 256 + s[5] as int, 0 <= s[4] < 256, 0 <= s[5] < 256;
        assert(0 <= be16(s, 6) < 0x1_0000) by (nonlinear_arith)
            requires be16(s, 6) == s[6] as int * 256 + s[7] as int, 0 <= s[6] < 256, 0 <= s[7] < 256;
        let p = spec_constant_pool(s, 8)->Ok_0.1;
        assert(0 <= be16(s, p + 2) < 0x1_0000) by (nonlinear_arith)
            requires be16(s, p + 2) == s[p + 2] as int * 256 + s[p + 3] as int, 0 <= s[p + 2] < 256, 0 <= s[p + 3] < 256;
        assert(0 <= be16(s, p + 4) < 0x1_0000) by (nonlinear_arith)
            requires be16(s, p + 4) == s[p + 4] as int * 256 + s[p + 5] as int, 0 <= s[p + 4] < 256, 0 <= s[p + 5] < 256;
    }
}

} // verus!
