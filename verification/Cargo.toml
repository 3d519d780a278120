[package]
name = "terp_accounts"
version = "0.1.0"
edition = "2021"
publish = false

[dependencies]
cosmwasm-std = { version = "=2.3.6", features = ["staking", "cosmwasm_1_2"] }
cw-utils = "=2.0.0"
cw-storage-plus = "=2.0.0"
cw2 = "=2.0.0"
cw-ownable = "=2.1.0"
cw-controllers = "=2.0.0"
cw721 = "=0.22.0"
serde = { version = "=1.0.229", default-features = false, features = ["derive"] }
thiserror = "=1.0.69"
