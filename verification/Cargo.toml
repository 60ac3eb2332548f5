[package]
name = "atenda"
version = "0.1.0"
edition = "2021"
publish = false

[dependencies]
url-escape = "=0.1.2"
uuid = { version = "=1.29.0", features = ["v4", "serde"] }
serde = { version = "=1.0.229", features = ["derive"] }
serde_json = "=1.0.154"
hyper = { version = "=0.14.32", features = ["full"] }
http = "=0.2.12"
tokio = { version = "=1.54.1", features = ["full"] }
futures-util = "=0.3.34"
reqwest = { version = "=0.11.27", default-features = false, features = ["rustls-tls"] }
sqlite = "=0.30.5"
mysql = { version = "=24.0.0", default-features = false }
flate2 = { version = "=1.1.10", features = ["rust_backend"] }
zip = { version = "=7.4.0", default-features = false, features = ["deflate"] }
chrono = "=0.4.45"
env_logger = "=0.10.2"
log = "=0.4.35"
once_cell = "=1.21.4"
