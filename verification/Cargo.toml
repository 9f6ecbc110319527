[package]
name = "tensor_sharder"
version = "0.1.0"
edition = "2021"
publish = false

[dependencies]
safetensors = "*"
sha2 = "*"
memmap2 = "*"
serde = { version = "*", features = ["derive"] }
serde_json = "*"
clap = { version = "*", features = ["derive"] }
