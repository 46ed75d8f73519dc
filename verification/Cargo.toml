[package]
name = "aip"
version = "0.1.0"
edition = "2021"
publish = false

[dependencies]
http = "=1.5.0"
axum-core = "=0.5.6"
serde = { version = "=1.0.229", features = ["derive"] }
serde_json = "=1.0.154"
thiserror = "=2.0.21"
sea-orm = { version = "1", default-features = false }
