[package]
name = "merkle"
version = "0.1.0"
edition = "2021"
publish = false

[dependencies]
digest = "0.10"
sha1 = "0.10"
sha2 = "0.10"
