[package]
name = "xca"
version = "0.1.0"
edition = "2021"
publish = false

[dependencies]
cosmwasm-std = "=1.5.11"
cosmwasm-schema = "=1.5.11"
cw-storage-plus = "=1.2.0"
cw2 = "=1.1.2"
cw20 = "=1.1.2"
cw-asset = "=3.1.1"
injective-cosmwasm = "=0.1.105"
injective-math = "=0.1.23"
schemars = "=0.8.22"
serde = { version = "=1.0.229", default-features = false, features = ["derive"] }
