[package]
name = "voucher_ledger"
version = "0.1.0"
edition = "2021"
publish = false

[dependencies]
hex = "*"
sha2 = "*"
near-sdk = { version = "*", features = ["unit-testing"] }
