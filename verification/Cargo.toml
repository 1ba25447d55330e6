[package]
name = "rust_lessons"
version = "0.1.0"
edition = "2021"
publish = false

[dependencies]
regex = "1"
rand = "0.8"
base64 = "0.13"
lru = "0.7"
percent-encoding = "2"
prost = "0.9"
bytes = "1"
anyhow = "1"
axum = "0.2"
tokio = { version = "1", features = ["full"] }
tower = "0.4"
tower-http = { version = "0.1", features = ["add-extension"] }
tracing = "0.1"
tracing-subscriber = "0.3"
serde = { version = "1", features = ["derive"] }
reqwest = { version = "0.11", default-features = false }
image = "0.23"
photon-rs = "0.3"
lazy_static = "1"
