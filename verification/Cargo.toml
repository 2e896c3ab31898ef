[package]
name = "encke"
version = "0.1.0"
edition = "2021"
publish = false

[dependencies]
base64 = "0.22"
cosmrs = { version = "*", features = ["cosmwasm", "rpc"] }
cosmwasm-schema = "2"
cosmwasm-std = "2"
cw-storage-plus = "2"
cw2 = "2"
cw20 = "2"
env_logger = "0.11"
hex = "0.4"
log = "0.4"
prost = "*"
schemars = "0.8"
serde = { version = "1", features = ["derive"] }
serde_json = "1"
tokio = { version = "1", features = ["macros", "rt-multi-thread", "time"] }
