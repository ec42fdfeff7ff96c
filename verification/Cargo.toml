[package]
name = "trigger_pipeline"
version = "0.1.0"
edition = "2021"
publish = false

[dependencies]
base64 = "0.21"
image = "0.24"
serde = { version = "1", features = ["derive"] }
serde_json = "1"
lazy_static = "1"
tokio = { version = "1", features = ["full"] }
tokio-stream = "0.1"
async-stream = "0.3"
ollama-rs = { version = "0.1", features = ["stream"] }
enigo = "0.2"
rdev = "0.5"
arboard = "3"
