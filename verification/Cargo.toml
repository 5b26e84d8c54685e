[package]
name = "dovahkiin"
version = "0.1.0"
edition = "2021"
publish = false

[dependencies]
twox-hash = "=1.6.3"
serde = "*"
serde_derive = "*"
