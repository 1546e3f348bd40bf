[package]
name = "gateway"
version = "0.1.0"
edition = "2021"
publish = false

[dependencies]
url = "*"
uuid = { version = "*", features = ["v4"] }
axum = { version = "*", features = ["ws"] }
tokio = { version = "*", features = ["full"] }
reqwest = { version = "*", default-features = false, features = ["json"] }
serde = { version = "*", features = ["derive"] }
serde_json = "*"
futures-util = "*"
tokio-tungstenite = "*"
tower-http = { version = "*", features = ["cors"] }
