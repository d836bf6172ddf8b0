[package]
name = "canon"
version = "0.1.0"
edition = "2021"
publish = false

[dependencies]
async-trait = "0.1"
axum = { version = "0.7", features = ["ws"] }
clap = { version = "4", features = ["derive", "env"] }
cpal = "0.15"
directories = "5"
futures-util = "0.3"
rtrb = "0.3"
rusqlite = { version = "0.32", features = ["bundled"] }
serde = { version = "1", features = ["derive"] }
serde_json = "1"
symphonia = { version = "*", features = ["aac", "alac", "flac", "isomp4"] }
thiserror = "1"
tokio = { version = "1", features = ["full"] }
tokio-tungstenite = "0.24"
tracing = "0.1"
tracing-subscriber = { version = "0.3", features = ["env-filter"] }
uuid = { version = "1", features = ["v4", "serde"] }
