[package]
name = "ship_core"
version = "0.1.0"
edition = "2021"
publish = false

[dependencies]
glob = "*"
ollama-rs = "*"
pdf-extract = "*"
serde = { version = "*", features = ["derive"] }
tokio = { version = "*", features = ["rt-multi-thread"] }
