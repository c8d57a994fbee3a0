[package]
name = "quaddlecl"
version = "0.1.0"
edition = "2021"
publish = false

[dependencies]
url = "=2.5.8"
futures = "=0.3.34"
chrono = "=0.4.45"
reqwest = { version = "=0.13.5", default-features = false }
reqwest-websocket = "=0.6.0"

[dev-dependencies]
serde_json = "=1.0.151"
