[package]
name = "proxy_connector"
version = "0.1.0"
edition = "2021"
publish = false

[dependencies]
anyhow = "1"
socket2 = "0.5"
tokio = { version = "1", features = ["net", "time"] }
tracing = "0.1"
