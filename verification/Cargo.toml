[package]
name = "aerospike_py"
version = "0.1.0"
edition = "2021"
publish = false

[dependencies]
log = "0.4"
crossbeam-channel = "0.5"
tracing = "0.1"
tracing-subscriber = "0.3"
prometheus-client = "*"

[dev-dependencies]
half = "2"
