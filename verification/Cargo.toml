[package]
name = "wa_sync"
version = "0.1.0"
edition = "2021"
publish = false

[dependencies]
serde_json = "1"
rusqlite = { version = "*", features = ["bundled"] }
tungstenite = "*"
url = "*"
