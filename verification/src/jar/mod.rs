//! Reading the manifest of a Java archive.

pub mod header_map;
pub mod manifest;
