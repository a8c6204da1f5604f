[package]
name = "aggregated-dex"
version = "0.1.0"
edition = "2021"
publish = false

[dependencies]
frame-support = "40.1.0"
parity-scale-codec = { version = "3.7", features = ["derive"] }
sp-core = "36.1.0"
sp-io = "40.0.1"
sp-runtime = "41.1.0"
