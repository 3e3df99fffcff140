[package]
name = "rmr-core"
version = "0.1.0"
edition = "2021"
publish = false

[dependencies]
rust-ini = "=0.21.3"
dirs = "=7.0.0"
serde = { version = "=1.0.229", features = ["derive"] }
serde_json = "=1.0.154"
thiserror = "=2.0.21"
log = "=0.4.35"
env_logger = "=0.11.11"
rayon = "=1.12.0"
tokio = { version = "=1.54.1", features = ["full"] }
tokio-util = { version = "=0.7.20", features = ["codec"] }
futures-util = { version = "=0.3.34", features = ["sink"] }
uuid = { version = "=1.29.0", features = ["v4"] }
ipnetwork = "=0.21.1"
actix-web = "=4.18.1"
actix-ws = "=0.4.0"
actix-cors = "=0.7.2"
actix-files = "=0.7.3"
actix-multipart = "=0.8.5"
