[package]
name = "docsly"
version = "0.1.0"
edition = "2021"
publish = false

[dependencies]
axum = { version = "*", features = ["ws"] }
tokio = { version = "*", features = ["full"] }
tower-cookies = "*"
serde = { version = "*", features = ["derive"] }
serde_json = "*"
jsonwebtoken = "*"
mongodb = "*"
futures = "*"
log = "*"
env_logger = "*"
dotenv = "*"
chrono = { version = "*", features = ["serde"] }
