[package]
name = "rustretto"
version = "0.1.0"
edition = "2021"
publish = false

[dependencies]
byteorder = "1"
cesu8 = "1"
fnv = "1"
indexmap = "2"
structopt = "0.3"
