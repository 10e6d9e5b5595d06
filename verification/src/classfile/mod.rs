pub mod error;
pub mod buffer;
pub mod descriptors;
pub mod descriptor_laws;
pub mod constant_pool;
pub mod instructions;
pub mod attrs;
pub mod access_flags;
pub mod class_file;
pub mod debug_text;
pub mod opcode_laws;
pub mod constant_laws;
pub mod class_file_laws;
