//! Access flags of classes, fields and methods; bits without a meaning are
//! dropped when read.
use vstd::prelude::*;

verus! {

pub const ACC_PUBLIC: u16 = 0x0001;
pub const ACC_PRIVATE: u16 = 0x0002;
pub const ACC_PROTECTED: u16 = 0x0004;
pub const ACC_STATIC: u16 = 0x0008;
pub const ACC_FINAL: u16 = 0x0010;
pub const ACC_SUPER: u16 = 0x0020;
pub const ACC_SYNCHRONIZED: u16 = 0x0020;
pub const ACC_VOLATILE: u16 = 0x0040;
pub const ACC_BRIDGE: u16 = 0x0040;
pub const ACC_TRANSIENT: u16 = 0x0080;
pub const ACC_VARARGS: u16 = 0x0080;
pub const ACC_NATIVE: u16 = 0x0100;
pub const ACC_INTERFACE: u16 = 0x0200;
pub const ACC_ABSTRACT: u16 = 0x0400;
pub const ACC_STRICT: u16 = 0x0800;
pub const ACC_SYNTHETIC: u16 = 0x1000;
pub const ACC_ANNOTATION: u16 = 0x2000;
pub const ACC_ENUM: u16 = 0x4000;

/// The bits that a class's flags may hold.
pub const CLASS_FLAG_BITS: u16 = 0x7631;
/// The bits that a field's flags may hold.
pub const FIELD_FLAG_BITS: u16 = 0x50df;
/// The bits that a method's flags may hold.
pub const METHOD_FLAG_BITS: u16 = 0x1dff;

#[derive(Clone, Copy, Debug, PartialEq, Eq, Structural)]
pub struct ClassAccessFlags {
    pub bits: u16,
}

#[derive(Clone, Copy, Debug, PartialEq, Eq, Structural)]
pub struct FieldAccessFlags {
    pub bits: u16,
}

#[derive(Clone, Copy, Debug, PartialEq, Eq, Structural)]
pub struct MethodAccessFlags {
    pub bits: u16,
}

impl ClassAccessFlags {
    pub fn from_bits_truncate(bits: u16) -> (r: Self)
        ensures
            r.bits == bits & CLASS_FLAG_BITS,
    {
        ClassAccessFlags { bits: bits & CLASS_FLAG_BITS }
    }

    /// Whether every bit of `flag` is set.
    pub fn contains(&self, flag: u16) -> (r: bool)
        ensures
            r == (self.bits & flag == flag),
    {
        self.bits & flag == flag
    }
}

impl FieldAccessFlags {
    pub fn from_bits_truncate(bits: u16) -> (r: Self)
        ensures
            r.bits == bits & FIELD_FLAG_BITS,
    {
        FieldAccessFlags { bits: bits & FIELD_FLAG_BITS }
    }

    /// Whether every bit of `flag` is set.
    pub fn contains(&self, flag: u16) -> (r: bool)
        ensures
            r == (self.bits & flag == flag),
    {
        self.bits & flag == flag
    }
}

impl MethodAccessFlags {
    pub fn from_bits_truncate(bits: u16) -> (r: Self)
        ensures
            r.bits == bits & METHOD_FLAG_BITS,
    {
        MethodAccessFlags { bits: bits & METHOD_FLAG_BITS }
    }

    /// Whether every bit of `flag` is set.
    pub fn contains(&self, flag: u16) -> (r: bool)
        ensures
            r == (self.bits & flag == flag),
    {
        self.bits & flag == flag
    }
}

} // verus!
