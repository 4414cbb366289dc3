[package]
name = "foch_language"
version = "0.1.0"
edition = "2021"
publish = false

[dependencies]
sha2 = "=0.10.9"
serde = { version = "=1.0.229", features = ["derive"] }
serde_json = "=1.0.154"
walkdir = "=2.5.0"
regex = "1"
dirs = "*"
filetime = "*"
