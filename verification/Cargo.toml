[package]
name = "near_ibc"
version = "0.1.0"
edition = "2021"
publish = false

[dependencies]
near-sdk = { version = "=5.30.0", features = ["non-contract-usage"] }
near-contract-standards = "=5.30.0"
ibc = "=0.17.0"
borsh = "=1.8.1"
hex = "=0.4.3"
sha2 = "=0.10.9"
serde = { version = "=1.0.229", features = ["derive"] }
serde_json = "=1.0.154"
tendermint = "=0.23.8"

[dev-dependencies]
near-sdk = { version = "=5.30.0", features = ["unit-testing"] }
