[package]
name = "rootle"
version = "0.1.0"
edition = "2021"
publish = false

[dependencies]
unicode-width = "0.2"
sha1 = "0.10"
sha2 = "*"
base64 = "0.22"
flate2 = "1"
tar = "0.4"
serde = { version = "1", features = ["derive"] }
serde_json = "1"
toml = "*"
clap = { version = "4", features = ["derive"] }
dirs = "*"
ratatui = "0.29"
