[package]
name = "masklint"
version = "0.1.0"
edition = "2021"
publish = false

[dependencies]
anyhow = "1"
clap = { version = "4", features = ["derive"] }
mask-parser = "*"
owo-colors = "*"
tempfile = "3"
