[package]
name = "makebeliv"
version = "0.1.0"
edition = "2021"
publish = false

[dependencies]
anyhow = "*"
bytes = "*"
clap = { version = "*", features = ["derive"] }
cpal = "*"
reqwest = { version = "*", default-features = false, features = ["multipart", "json"] }
serde_json = "*"
tokio = { version = "*", features = ["rt-multi-thread", "macros", "time", "sync"] }
tracing = "*"
tracing-subscriber = "*"
