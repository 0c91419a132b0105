[package]
name = "manifest_generator"
version = "0.1.0"
edition = "2021"
publish = false

[dependencies]
blake3 = { version = "1", features = ["pure"] }
clap = { version = "3.2", features = ["derive"] }
globset = "0.4"
question = "*"
serde = { version = "1", features = ["derive"] }
serde_json = "1"
walkdir = "2"
wild = "2"
