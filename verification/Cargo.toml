[package]
name = "nasset_token_rewards"
version = "0.1.0"
edition = "2021"
publish = false

[dependencies]
cosmwasm-std = "0.16"
cosmwasm-bignumber = "*"
cw-storage-plus = "0.8"
cw20 = "0.8"
cw20-base = { version = "0.8", features = ["library"] }
serde = { version = "1", default-features = false, features = ["derive"] }
