//! The intermediate form that bytecode is translated to: value types,
//! variables, operands, branches and the phi bindings between blocks.
pub mod types;
pub mod translate;
pub mod blocks;
