[package]
name = "lionbootloader_core"
version = "0.1.0"
edition = "2021"
publish = false

[dependencies]
sha2 = { version = "0.10", features = ["oid"] }
rsa = "0.9"
p256 = "0.13"

[dev-dependencies]
rand = "0.8"
