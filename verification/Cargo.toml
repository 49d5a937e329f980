[package]
name = "desmos_contracts"
version = "0.1.0"
edition = "2021"
publish = false

[dependencies]
cosmwasm-std = "1.5"
cosmwasm-schema = "1.5"
cw-storage-plus = "1.2"
cw2 = "1.1"
cw721 = "0.18"
cw721-base = "0.18"
cw-ownable = "0.5"
cw-utils = "1.0"
cosmwasm-storage = "1.5"
desmos-bindings = "*"
serde = { version = "1.0", features = ["derive"] }
schemars = "0.8"
thiserror = "1.0"
url = "2"
