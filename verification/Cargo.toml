[package]
name = "iotedge"
version = "0.1.0"
edition = "2021"
publish = false

[dependencies]
anyhow = "1"
async-trait = "0.1"
bytes = "0.5"
futures = "0.3"
futures-util = "0.3"
lazy_static = "1"
log = "0.4"
thiserror = "1"
tokio = { version = "0.2", features = ["full"] }
tokio-io-timeout = "0.4"
tokio-util = { version = "0.3", features = ["codec"] }
tracing = "0.1"
tracing-subscriber = "0.2"
