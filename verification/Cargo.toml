[package]
name = "cw_vm_test"
version = "0.1.0"
edition = "2021"
publish = false

[dependencies]
cosmwasm-std = "1"
cosmwasm-crypto = "1"
cw2 = "1"
cw-storage-plus = "1"
hex = "0.4"
schemars = "0.8"
serde = { version = "1", features = ["derive"] }
