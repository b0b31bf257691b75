[package]
name = "wormhole"
version = "0.1.0"
edition = "2021"
publish = false

[dependencies]
futures = "0.3"
rand = "0.8"
tokio = { version = "1", features = ["full"] }
warp = "0.3"
serde = { version = "1", features = ["derive"] }
serde_json = "1"
log = "0.4"
pretty_env_logger = "0.5"
lazy_static = "1"
hmac = "0.12"
sha2 = "0.10"
hex = "0.4"
