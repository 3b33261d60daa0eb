[package]
name = "translator_sv2"
version = "0.1.0"
edition = "2021"
publish = false

[dependencies]
async-channel = "=1.9.0"
async-std = "=1.13.2"
binary_sv2 = "=0.1.7"
framing_sv2 = "=0.1.6"
futures = "=0.3.34"
roles_logic_sv2 = "=0.1.2"
serde = { version = "=1.0.229", features = ["derive"] }
serde_json = "=1.0.154"
sv1_api = "=0.1.2"
tokio = { version = "=1.54.1", features = ["full"] }
toml = "=0.5.11"
tracing = "=0.1.44"
tracing-subscriber = "=0.3.23"
