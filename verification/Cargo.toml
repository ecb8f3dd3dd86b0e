[package]
name = "firmware_extractor"
version = "1.0.0"
edition = "2021"
publish = false

[dependencies]
brotli = "*"
clap = { version = "4", features = ["derive"] }
compress-tools = "*"
regex = "1"
temp-dir = "*"
