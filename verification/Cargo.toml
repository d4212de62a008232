[package]
name = "dexlib_oxide"
version = "0.1.0"
edition = "2021"
publish = false

[dependencies]
indexmap = "2"
bitflags = "2"
