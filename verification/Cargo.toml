[package]
name = "videowall"
version = "0.1.0"
edition = "2021"
publish = false

[dependencies]
arboard = "*"
async-trait = "*"
env_logger = "*"
futures = "*"
log = "*"
reqwest = { version = "0.12", default-features = false, features = ["json", "rustls-tls"] }
serde = { version = "*", features = ["derive"] }
tokio = { version = "*", features = ["full"] }
