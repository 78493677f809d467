[package]
name = "bone_app"
version = "0.1.0"
edition = "2021"
publish = false

[dependencies]
crossterm = "0.28"
fs2 = "0.4"
http = "1"
serde = { version = "1", features = ["derive"] }
serde_json = "1"
sha2 = "0.10"
tempfile = "3"
thiserror = "2"
toml = "0.8"
url = "2"
uuid = { version = "1", features = ["v4"] }
