[package]
name = "skychat"
version = "0.1.0"
edition = "2021"
publish = false

[dependencies]
openmls = "*"
openmls_basic_credential = "*"
openmls_rust_crypto = "*"
base64 = "*"
bincode = "1"
serde = { version = "*", features = ["derive"] }
serde_json = "*"
