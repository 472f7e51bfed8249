[package]
name = "queue_quota"
version = "0.1.0"
edition = "2021"
publish = false

[dependencies]
base64 = "0.22"
ed25519-dalek = "1"
url = "2"
serde = { version = "1", features = ["derive"] }
serde_json = "1"
tokio = { version = "1", features = ["fs", "io-util", "net", "rt"] }
actix-web = { version = "4", default-features = false }
log = "0.4"
thiserror = "1"
