[package]
name = "yabts"
version = "0.1.0"
edition = "2021"
publish = false

[dependencies]
argparse = "0.2"
bincode = "1"
serde = { version = "1", features = ["derive"] }
