[package]
name = "brush_codegen"
version = "0.1.0"
edition = "2021"
publish = false

[dependencies]
sha2 = "0.10"
syn = { version = "1", features = ["full"] }
quote = "1"
proc-macro2 = "1"
synstructure = "0.12"
