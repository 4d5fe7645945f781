[package]
name = "empede"
version = "0.1.0"
edition = "2021"
publish = false

[dependencies]
actix-files = "*"
actix-web = "*"
actix-web-lab = "*"
anyhow = "*"
async-std = "*"
env_logger = "*"
infer = "*"
percent-encoding = "*"
serde = { version = "*", features = ["derive"] }
tokio = { version = "*", features = ["sync"] }
