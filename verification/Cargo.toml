[package]
name = "qwen_rust"
version = "0.1.0"
edition = "2021"
publish = false

[dependencies]
anyhow = "1"
candle-core = "0.8"
candle-nn = "0.8"
rand = "0.8"
