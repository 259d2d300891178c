[package]
name = "inventory_ledger"
version = "0.1.0"
edition = "2021"
publish = false

[dependencies]
ic-stable-structures = "0.6"
ic-cdk = "0.12"
candid = "0.10"
serde = { version = "1", features = ["derive"] }
