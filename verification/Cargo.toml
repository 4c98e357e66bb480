[package]
name = "lulzcoin"
version = "0.1.0"
edition = "2021"
publish = false

[dependencies]
rust-crypto = "0.2"
rust-base58 = "0.0.4"
hex = "0.2"
openssl = "0.10"
sodiumoxide = "0.2"
time = "0.1"
serde = { version = "1", features = ["derive"] }
serde_json = "1"
rpassword = "5"
rustyline = "9"
lazy_static = "1"
