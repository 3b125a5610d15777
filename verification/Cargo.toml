[package]
name = "stark-backend"
version = "0.1.0"
edition = "2021"
publish = false

[dependencies]
serde = { version = "=1.0.229", features = ["derive"] }
serde_json = "=1.0.154"
uuid = { version = "=1.29.0", features = ["v4"] }
url = "=2.5.8"
hex = "=0.4.3"
ron = "=0.12.3"
chrono = "=0.4.45"
base64 = "=0.23.1"
rand = "=0.8.8"
log = "=0.4.35"
r2d2 = "*"
r2d2_sqlite = { version = "*", features = ["bundled"] }
dotenv = "0.15"
env_logger = "*"
