[package]
name = "into_duration"
version = "0.1.0"
edition = "2021"
publish = false

[dependencies]
nu-engine = "=0.84.0"
nu-protocol = "=0.84.0"

[dev-dependencies]
nu-parser = "=0.84.0"
