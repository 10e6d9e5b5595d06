//! Helpers that write LLVM IR text, and virtual method tables.
pub mod common;
pub mod decls;
pub mod codegen;
pub mod expr;
pub mod expr_laws;
pub mod vtable;
