[package]
name = "evm"
version = "0.1.0"
edition = "2021"
publish = false

[dependencies]
primitive-types = "0.12"
sha3 = "0.10"
bit-vec = "0.6"
hex = "0.4"
serde = { version = "1", features = ["derive"] }
serde_json = "1"
