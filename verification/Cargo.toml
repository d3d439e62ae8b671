[package]
name = "rmb"
version = "0.1.0"
edition = "2021"
publish = false

[dependencies]
anyhow = "1"
audiotags = "0.5"
base64 = "0.22"
chrono = "0.4"
dirs = "5"
env_logger = { version = "0.11", default-features = false }
ffprobe = "0.4"
futures = "0.3"
image = { version = "0.24", default-features = false, features = ["gif", "png", "jpeg"] }
lazy_static = "1"
linkify = "0.10"
log = "0.4"
nanoid = "0.4"
rand = "0.8"
reqwest = { version = "0.11", features = ["json", "multipart"] }
serde = { version = "1", features = ["derive"] }
serde_json = "1"
serenity = { version = "0.12", default-features = false, features = ["builder", "cache", "chrono", "client", "gateway", "http", "model", "utils", "rustls_backend"] }
tokio = { version = "1", features = ["full"] }
urlencoding = "2"
ytd-rs = "0.1"
