[package]
name = "firebase-rs"
version = "0.1.0"
edition = "2021"
publish = false

[dependencies]
url = "2"
http = "0.2"
serde = { version = "1", features = ["derive"] }
serde_json = "1"
async-trait = "0.1"
tokio = { version = "1", features = ["sync", "rt", "macros"] }
reqwest = { version = "0.11", default-features = false, features = ["json"] }
http_req = { version = "*", default-features = false }
