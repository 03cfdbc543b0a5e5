[package]
name = "rtmp_server"
version = "0.1.0"
edition = "2021"
publish = false

[dependencies]
log = "0.4"
rand = "0.8"
tokio = { version = "1", features = ["net", "io-util"] }
