[package]
name = "signaling"
version = "0.1.0"
edition = "2021"
publish = false

[dependencies]
bs58 = "*"
nanoid = "*"
openssl = "*"

[dev-dependencies]
prost = "*"
