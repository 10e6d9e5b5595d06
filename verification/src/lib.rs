//! A Java class file reader and the pieces of a bytecode compiler built on it:
//! descriptor parsing, constant pools, attributes, instruction decoding, the
//! translation of instruction blocks into statements over SSA variables,
//! virtual method tables and field layouts, symbol mangling, LLVM IR text
//! helpers, and JAR manifests.

pub mod text;
pub mod lookup;
pub mod classfile;
pub mod compiler;
pub mod frontend;
pub mod backend;
pub mod javap;
pub mod opt;
pub mod jar;
