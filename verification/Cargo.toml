[package]
name = "scrabble"
version = "0.1.0"
edition = "2021"
publish = false

[dependencies]
uuid = { version = "=1.27.0", features = ["v4", "serde"] }
rand = "=0.10.3"
axum = "=0.8.9"
serde = { version = "=1.0.229", features = ["derive"] }
socketioxide = { version = "=0.18.7", features = ["extensions"] }
tokio = { version = "=1.53.2", features = ["full"] }
tower-http = { version = "=0.7.1", features = ["cors"] }
tracing = "=0.1.44"
tracing-subscriber = "=0.3.23"
