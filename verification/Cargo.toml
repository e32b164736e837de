[package]
name = "storage_reader"
version = "0.1.0"
edition = "2021"
publish = false

[dependencies]
sp-crypto-hashing = "*"

[dev-dependencies]
parity-scale-codec = "*"
