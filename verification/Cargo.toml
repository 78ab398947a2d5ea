[package]
name = "jp_suggest"
version = "0.1.0"
edition = "2021"
publish = false

[dependencies]
romaji = "=0.1.1"
serde = { version = "*", features = ["derive"] }
serde_json = "*"
bincode = "1"
