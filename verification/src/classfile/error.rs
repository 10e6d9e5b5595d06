use vstd::prelude::*;

verus! {

/// Every way in which reading a class file, or a piece of one, can fail.
#[derive(Debug, Clone, Copy, PartialEq, Eq, Structural)]
pub enum ClassFileError {
    /// The input ended before a complete item could be read.
    UnexpectedEof,
    /// The magic number at the start of the file was refused.
    UnknownMagic,
    /// A constant pool entry carries a tag that is not known.
    UnknownConstantTag(u8),
    /// A string in Java's modified UTF-8 could not be decoded.
    InvalidJavaCesu8,
    /// A verification type carries a tag that is not known.
    UnknownVerificationTypeTag(u8),
    /// A stack map frame carries a type that is not known.
    UnknownFrameType(u8),
    /// An opcode that is not known.
    UnknownOpcode(u8),
    /// An opcode after `wide` that is not known.
    UnknownWideOpcode(u8),
    /// A method descriptor does not start with `(`.
    ExpectedParameterDescriptors,
    /// An object type descriptor is not terminated by `;`.
    InvalidClassName,
    /// A class name in a descriptor is not valid UTF-8.
    InvalidUtf8,
    /// A field type descriptor starts with a tag that is not known.
    UnknownDescriptorTag(u8),
    /// A requested attribute is not present.
    MissingAttribute,
}

} // verus!
