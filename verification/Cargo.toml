[package]
name = "chord_dht"
version = "0.1.0"
edition = "2021"
publish = false

[dependencies]
rust-crypto = "*"
serde = { version = "1", features = ["derive"] }
serde_json = "1"
signal-hook = "*"
