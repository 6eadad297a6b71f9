[package]
name = "llava_core"
version = "0.1.0"
edition = "2021"
publish = false

[dependencies]
anyhow = "*"
candle-core = "*"
candle-nn = "*"
candle-transformers = "*"
clap = { version = "*", features = ["derive"] }
image = { version = "*", default-features = false, features = ["png", "jpeg"] }
serde_json = "*"
tokenizers = { version = "*", default-features = false, features = ["onig"] }
