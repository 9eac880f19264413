[package]
name = "carbon_ledger"
version = "0.1.0"
edition = "2021"
publish = false

[dependencies]
num-bigint = "*"
cosmwasm-std = "*"
cw-storage-plus = "*"
schemars = "*"
serde = { version = "*", features = ["derive"] }
hex = "*"
