[package]
name = "ft_lockup"
version = "1.0.0"
edition = "2021"
publish = false

[dependencies]
borsh = { version = "1", features = ["derive"] }
near-sdk = { version = "5", features = ["legacy", "unit-testing"] }
near-contract-standards = "5"
near-sdk-contract-tools = "3"
