[package]
name = "standard_udt_contracts"
version = "0.1.0"
edition = "2021"
publish = false

[dependencies]
ckb-std = { version = "=1.1.0", features = ["type-id"] }
