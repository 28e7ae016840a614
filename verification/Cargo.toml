[package]
name = "thumbnailer"
version = "0.1.0"
edition = "2021"
publish = false

[dependencies]
num-traits = "=0.2.19"
futures = "=0.3.34"
http = "=0.2.12"
hyper = "=0.13.10"
image = { version = "=0.23.14", default-features = false, features = ["png", "jpeg", "gif"] }
lazy_static = "=1.5.1"
opentelemetry = { version = "=0.10.0", features = ["metrics"] }
reqwest = { version = "=0.10.10", default-features = false }
serde = { version = "=1.0.229", features = ["derive"] }
serde_json = "=1.0.154"
tokio = { version = "=0.2.25", features = ["full"] }
toml = "=0.5.11"
warp = "=0.2.5"
