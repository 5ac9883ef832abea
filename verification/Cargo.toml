[package]
name = "artifact_cache"
version = "0.1.0"
edition = "2021"
publish = false

[dependencies]
async-lock = "=3.4.2"
bytes = "=1.12.1"
futures = "=0.3.34"
http = "=1.5.0"
md-5 = "=0.11.0"
reqwest = { version = "=0.12.28", default-features = false, features = ["json"] }
reqwest-middleware = "=0.4.2"
reqwest-retry = "=0.7.0"
reqwest-retry-after = "=0.2.1"
reqwest-tracing = "=0.5.8"
serde = { version = "=1.0.229", features = ["derive"] }
serde_json = "=1.0.151"
sha2 = "=0.11.0"
url = "=2.5.8"
