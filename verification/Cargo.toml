[package]
name = "i18n"
version = "0.1.0"
edition = "2021"
publish = false

[dependencies]
dashmap = "*"
serde_json = "*"
toml = "*"
serde_yml = "*"
serde = { version = "*", features = ["derive"] }
glob = "*"
once_cell = "*"
parking_lot = "*"
aes = "*"
ctr = "*"
hex = "*"
