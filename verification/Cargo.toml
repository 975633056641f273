[package]
name = "tycho_execution"
version = "0.1.0"
edition = "2021"
publish = false

[dependencies]
clap = { version = "=4.6.7", features = ["derive"] }
hex = "=0.4.3"
serde = { version = "=1.0.229", features = ["derive"] }
serde_json = "=1.0.154"
k256 = { version = "0.13", features = ["ecdsa"] }
sha3 = "0.10"
