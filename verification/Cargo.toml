[package]
name = "collab_board"
version = "0.1.0"
edition = "2021"
publish = false

[dependencies]
actix = "=0.13.5"
actix-cors = "=0.7.2"
actix-rt = "=2.15.0"
actix-web = "=4.18.1"
actix-web-actors = "=4.3.1"
argon2 = { version = "=0.5.3", features = ["std"] }
bson = "=2.15.0"
chrono = "=0.4.45"
dotenv = "=0.15.0"
env_logger = "=0.11.11"
futures = "=0.3.34"
log = "=0.4.35"
mongodb = "=3.9.1"
serde = { version = "=1.0.229", features = ["derive"] }
serde_json = { version = "=1.0.154", features = ["float_roundtrip"] }
uuid = { version = "=1.29.1", features = ["v4"] }
