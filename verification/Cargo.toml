[package]
name = "kwollect_input"
version = "0.1.0"
edition = "2021"
publish = false

[dependencies]
serde_json = "1"
chrono = "0.4"
serde = { version = "1", features = ["derive"] }
alumet = "*"
anyhow = "1"
log = "0.4"
reqwest = "*"
time = "*"
tokio = { version = "1", features = ["rt-multi-thread"] }
