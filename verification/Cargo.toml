[package]
name = "styleparse"
version = "0.1.0"
edition = "2021"
publish = false

[dependencies]
dirs = "=7.0.0"
jpeg-decoder = { version = "=0.3.2", features = ["platform_independent"] }
jpeg-encoder = "=0.7.1"
png = "=0.18.1"
