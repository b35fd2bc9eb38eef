[package]
name = "song_contract"
version = "0.1.0"
edition = "2021"
publish = false

[dependencies]
bincode = "1.3"
bincode2 = "2"
cosmwasm-std = "1.5"
cw721 = "0.18"
cw721-base = "0.18"
cw-ownable = "0.5"
cw-storage-plus = "1.2"
schemars = "0.8"
serde = { version = "1", features = ["derive"] }
serde_json = "1"
