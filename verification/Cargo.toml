[package]
name = "quiz_server"
version = "0.1.0"
edition = "2021"
publish = false

[dependencies]
csv = "1"
rand = "0.8"
serde = { version = "1", features = ["derive"] }
actix-web = "4"
actix-cors = "*"
env_logger = "*"
log = "0.4"
