[package]
name = "cs2_radar"
version = "0.1.0"
edition = "2021"
publish = false

[dependencies]
anyhow = "1"
axum = { version = "0.6", features = ["ws"] }
clap = "4"
futures = "0.3"
log = "0.4"
memflow = "0.2"
serde = { version = "1", features = ["derive"] }
serde_json = "1"
simplelog = "0.12"
tokio = { version = "1", features = ["full"] }
tower-http = { version = "0.4", features = ["fs"] }
