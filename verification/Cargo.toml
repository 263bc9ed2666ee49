[package]
name = "tracing_etw"
version = "0.1.0"
edition = "2021"
publish = false

[dependencies]
eventheader = "*"
eventheader_dynamic = "*"
chrono = "*"
tracing = "*"
tracing-core = "*"
tracing-subscriber = "*"

[dev-dependencies]
hashers = "*"
