[package]
name = "staking"
version = "0.1.0"
edition = "2021"
publish = false

[dependencies]
near-sdk = { version = "5", features = ["legacy", "unit-testing"] }
near-contract-standards = "5"
serde_json = "1"
