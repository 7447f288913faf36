[package]
name = "tle_propagator"
version = "0.1.0"
edition = "2021"
publish = false

[dependencies]
chrono = "0.4"
sgp4 = "2"
redis = "*"
serde = { version = "1", features = ["derive"] }
serde_json = "1"
tokio = { version = "1", features = ["full"] }
tracing = "0.1"
tracing-subscriber = "0.3"
