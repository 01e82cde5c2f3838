[package]
name = "prometheus_encoder"
version = "0.1.0"
edition = "2021"
publish = false

[dependencies]
indexmap = "2"
serde = { version = "1", features = ["derive"] }
strum = "*"
strum_macros = "*"
thiserror = "*"

[dev-dependencies]
openmetrics-parser = "*"
