[package]
name = "witgen"
version = "0.1.0"
edition = "2021"
publish = false

[dependencies]
anyhow = "1"
hex = "0.4"
once_cell = "1"
proc-macro2 = "1"
quote = "1"
sha2 = "0.10"
syn = { version = "1", features = ["full"] }
