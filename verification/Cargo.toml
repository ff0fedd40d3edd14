[package]
name = "pollux"
version = "0.1.0"
edition = "2021"
publish = false

[dependencies]
base64 = "0.13"
sha1 = "0.10"
http = "0.2"
httparse = "1"
httpdate = "1"
serde = { version = "1", features = ["derive"] }
serde_json = "1"
rand = "0.8"
tokio = { version = "1", features = ["full"] }
redis = { version = "0.23", default-features = false }
