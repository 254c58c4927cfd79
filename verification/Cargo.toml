[package]
name = "youmubot-osu"
version = "0.1.0"
edition = "2021"
publish = false

[dependencies]
chrono = { version = "=0.4.45", default-features = false, features = ["clock"] }
futures-util = "=0.3.34"
rand = "=0.8.8"
serde = { version = "=1.0.229", features = ["derive"] }
serenity = { version = "=0.12.5", default-features = false, features = ["builder", "cache", "chrono", "client", "collector", "framework", "gateway", "http", "model", "standard_framework", "utils", "rustls_backend"] }
tokio = { version = "=1.54.1", features = ["sync"] }
