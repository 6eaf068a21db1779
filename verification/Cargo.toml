[package]
name = "tonic-richer-error"
version = "0.3.0"
edition = "2021"
publish = false

[dependencies]
prost = "0.11"
prost-types = "0.11"
tonic = { version = "0.8", default-features = false }
