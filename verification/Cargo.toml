[package]
name = "ssa_parser"
version = "0.1.0"
edition = "2021"
publish = false

[dependencies]
encoding_rs = "0.8"
itertools = "*"
strum = { version = "*", features = ["derive"] }
thiserror = "*"
