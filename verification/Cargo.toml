[package]
name = "xcompress"
version = "0.1.0"
edition = "2021"
publish = false

[dependencies]
console = "=0.15.11"
dialoguer = "=0.11.0"
fs_extra = "=1.3.0"
indicatif = "=0.17.11"
regex = "=1.13.1"
serde = { version = "=1.0.229", features = ["derive"] }
serde_json = "=1.0.154"
toml = { version = "=0.8.23", features = ["preserve_order"] }
