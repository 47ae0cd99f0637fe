[package]
name = "tracing_sprout"
version = "0.1.0"
edition = "2021"
publish = false

[dependencies]
chrono = "0.4"
tracing = "0.1"
tracing-core = "0.1"
tracing-subscriber = "0.3"

[dev-dependencies]
json = "0.12"
