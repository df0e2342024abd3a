[package]
name = "otel_fields"
version = "0.1.0"
edition = "2021"
publish = false

[dependencies]
serde = { version = "=1.0.229", features = ["derive"] }
serde_json = "=1.0.154"
clap = { version = "=4.6.7", features = ["derive"] }
tokio = { version = "=1.54.1", features = ["rt", "macros"] }
policy-rs = "=1.6.0"

[dev-dependencies]
base64 = "=0.22.1"
