[package]
name = "singletask"
version = "0.1.0"
edition = "2021"
publish = false

[dependencies]
axum = "*"
chrono = "*"
chrono-tz = "*"
comrak = "*"
echodb = "*"
futures = "*"
reqwest = { version = "*", default-features = false, features = ["json"] }
serde = { version = "*", features = ["derive"] }
serde_json = "*"
serde_repr = "*"
tokio = { version = "*", features = ["full"] }
urlencoding = "*"
uuid = { version = "*", features = ["v4"] }
