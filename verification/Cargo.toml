[package]
name = "iron_file"
version = "0.1.0"
edition = "2021"
publish = false

[dependencies]
sha1 = "0.10"
url = "2"
serde = { version = "1", features = ["derive"] }
toml = "0.8"
serde_json = "1"
