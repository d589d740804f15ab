[package]
name = "stateful_processor"
version = "0.1.0"
edition = "2021"
publish = false

[dependencies]
anyhow = "1"
arrow-array = "55"
arrow-schema = "55"
async-trait = "0.1"
datafusion = { version = "48", default-features = false }
datafusion-proto = { version = "48", default-features = false }
itertools = "0.14"
prost = "0.13"
