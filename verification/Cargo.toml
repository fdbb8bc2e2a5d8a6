[package]
name = "versatiles"
version = "0.1.0"
edition = "2021"
publish = false

[dependencies]
flate2 = "=1.1.10"
brotli = "=9.0.0"
image = { version = "0.25", default-features = false, features = ["png", "jpeg", "webp"] }
tar = "=0.4.46"
hyper = { version = "=0.14.32", features = ["full"] }
tokio = { version = "=1.53.2", features = ["full"] }
anyhow = "=1.0.104"
