[package]
name = "codex_skin_workshop"
version = "0.1.0"
edition = "2021"
publish = false

[dependencies]
base64 = "=0.22.1"
image = { version = "=0.25.10", default-features = false, features = ["png", "jpeg", "webp", "gif"] }
reqwest = { version = "=0.12.28", default-features = false, features = ["blocking", "json"] }
serde = { version = "=1.0.229", features = ["derive"] }
serde_json = "=1.0.154"
thiserror = "=2.0.21"
tungstenite = "=0.26.2"
url = "=2.5.8"
uuid = { version = "=1.29.0", features = ["v4"] }

[dev-dependencies]
tempfile = "=3.27.0"
