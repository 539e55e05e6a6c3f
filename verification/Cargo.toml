[package]
name = "cosmos-kms"
version = "0.1.0"
edition = "2021"
publish = false

[dependencies]
signatory = { version = "*", features = ["ed25519"] }
