[package]
name = "carve"
version = "0.1.0"
edition = "2021"
publish = false

[dependencies]
rand = "0.9"
regex = "1"
minijinja = "2"
argon2 = "0.5"
ssh-key = { version = "0.6", features = ["ed25519"] }
serde = { version = "1", features = ["derive"] }
serde_json = "1"
serde_yaml = "0.9"
chrono = { version = "0.4", features = ["serde"] }
anyhow = "1"
log = "0.4"
env_logger = "0.11"
redis = { version = "0.27", features = ["tokio-comp"] }
tokio = { version = "1", features = ["full"] }
futures = "0.3"
futures-util = "0.3"
actix-web = "4"
actix-session = { version = "0.10", features = ["cookie-session"] }
actix-cors = "0.7"
actix-ws = "0.3"
actix-rt = "2"
reqwest = { version = "0.12", features = ["json", "native-tls"] }
oauth2 = "5"
ssh2 = "0.9"
iptables = "0.5"
config = { version = "0.15", features = ["yaml"] }
