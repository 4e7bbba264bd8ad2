[package]
name = "axum_streams"
version = "0.1.0"
edition = "2021"
publish = false

[dependencies]
axum = { version = "0.7", default-features = false }
bytes = "1"
futures = "0.3"
futures-util = "0.3"
http = "1"
http-body = "1"
serde = "1"
serde_json = "1"
