[package]
name = "project_summarizer"
version = "0.1.0"
edition = "2021"
publish = false

[dependencies]
glob = "*"
serde = { version = "*", features = ["derive"] }
serde_yaml = "*"
clap = "*"
