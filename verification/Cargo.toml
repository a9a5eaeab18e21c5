[package]
name = "fdb_dht"
version = "0.1.0"
edition = "2021"
publish = false

[dependencies]
ed25519-compact = { version = "=2.6.0", default-features = false }
log = "=0.4.34"
marine-rs-sdk = { version = "=0.14.0", features = ["logger"] }
marine-sqlite-connector = "=0.11.0"
