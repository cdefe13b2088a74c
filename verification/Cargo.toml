[package]
name = "tracing_tail_sample"
version = "0.1.0"
edition = "2021"
publish = false

[dependencies]
uuid = { version = "1", features = ["v4"] }
opentelemetry = "0.19"
tracing = "0.1"
tracing-core = "0.1"
tracing-subscriber = "0.3"
tracing-log = "0.1"
