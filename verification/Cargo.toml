[package]
name = "rollup_core"
version = "0.1.0"
edition = "2021"
publish = false

[dependencies]
hex = "=0.4.3"
parity-crypto = "=0.9.0"
serde = { version = "=1.0.229", features = ["derive"] }
