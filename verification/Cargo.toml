[package]
name = "easy_tokio_rustls"
version = "0.1.0"
edition = "2021"
publish = false

[dependencies]
anyhow = "1"
base64 = "0.13"
thiserror = "1"
tokio = { version = "1", features = ["net", "fs", "io-util", "rt"] }
tokio-rustls = "0.23"
webpki-roots = "0.22"
