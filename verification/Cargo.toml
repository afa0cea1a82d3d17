[package]
name = "tower_cookies"
version = "0.1.0"
edition = "2021"
publish = false

[dependencies]
cookie = { version = "=0.18.2", features = ["signed", "private", "percent-encode"] }
http = "=1.5.0"
tower-layer = "=0.3.3"
tower-service = "=0.3.3"
axum-core = "=0.5.6"
pin-project-lite = "=0.2.17"
