[package]
name = "http_client"
version = "0.1.0"
edition = "2021"
publish = false

[dependencies]
anyhow = "*"
async-stream = "*"
futures = "*"
http = "*"
pin-project-lite = "*"
serde = "*"
serde_json = "*"
