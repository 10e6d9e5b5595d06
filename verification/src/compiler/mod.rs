//! The parts of the compiler that work on plain values: value types, variable
//! and block identifiers, the operand stack and local slots of a frame, the
//! translation of instructions into statements, symbol mangling, the lookup of
//! loaded classes and of what loading a class takes, and object field layouts.
pub mod types;
pub mod translate;
pub mod frame;
pub mod mangle;
pub mod classes;
pub mod layout;
pub mod loader;
pub mod mangle_laws;
