[package]
name = "compiler_solidity"
version = "0.1.0"
edition = "2021"
publish = false

[dependencies]
anyhow = "1"
hex = "0.4"
inkwell = { version = "0.11", features = ["llvm18-1"] }
semver = { version = "1", features = ["serde"] }
serde = { version = "1", features = ["derive"] }
serde_json = "1"
sha3 = "0.10"
