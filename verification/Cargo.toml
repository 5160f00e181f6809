[package]
name = "animation_asset_manager"
version = "0.1.0"
edition = "2021"
publish = false

[dependencies]
anyhow = "=1.0.104"
base64 = "=0.22.1"
chrono = { version = "=0.4.45", features = ["serde"] }
futures = "=0.3.34"
gif = "=0.13.3"
image = { version = "=0.25.10", default-features = false, features = ["png", "gif", "jpeg"] }
reqwest = { version = "=0.12.28", default-features = false, features = ["json", "stream", "rustls-tls"] }
rusqlite = { version = "=0.31.0", features = ["bundled"] }
serde = { version = "=1.0.229", features = ["derive"] }
serde_json = "=1.0.154"
tokio = { version = "=1.54.1", features = ["fs", "io-util", "rt-multi-thread", "macros"] }
uuid = { version = "=1.29.0", features = ["v4"] }
