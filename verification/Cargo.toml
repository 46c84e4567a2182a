[package]
name = "db_server"
version = "0.1.0"
edition = "2021"
publish = false

[dependencies]
anyhow = "1"
bytes = "1"
dashmap = "4"
flate2 = "1"
futures = "0.3"
http = "0.2"
prost = "0.8"
rustls-native-certs = "0.5"
sled = "0.34"
thiserror = "1"
tokio = { version = "1", features = ["full"] }
tokio-rustls = "0.22"
tokio-stream = "0.1"
tokio-util = { version = "0.6", features = ["compat"] }
tracing = "0.1"
tracing-subscriber = "0.2"
yamux = "0.9"

[dev-dependencies]
tempfile = "3"
