[package]
name = "browser_agent"
version = "0.1.0"
edition = "2021"
publish = false

[dependencies]
reqwest = { version = "0.12", default-features = false, features = ["json", "rustls-tls"] }
serde_json = "1"
tauri = { version = "2", default-features = false }
tokio = { version = "1", features = ["time"] }
uuid = { version = "1", features = ["v4"] }
