[package]
name = "ai_assistance"
version = "0.1.0"
edition = "2021"
publish = false

[dependencies]
regex = "1"
chrono = "0.4"
base64 = "0.22"
pulldown-cmark = "*"
rand = "0.8"
serde = { version = "1", features = ["derive"] }
serde_json = "1"
rusqlite = { version = "*", features = ["bundled"] }
reqwest = { version = "0.12", default-features = false, features = ["json", "multipart", "stream", "rustls-tls"] }
dirs = "*"
sysinfo = "*"
arboard = { version = "*", default-features = false }
tokio = { version = "1", features = ["time"] }
futures = "0.3"
