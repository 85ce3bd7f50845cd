[package]
name = "connect"
version = "0.1.0"
edition = "2021"
publish = false

[dependencies]
bytes = "0.5"
http = "0.2"
hyper = "0.13"
hyper-rustls = { version = "0.20", default-features = false }
hyper-tls = "0.4"
log = "0.4"
native-tls = "0.2"
pin-project-lite = "0.1"
rustls = "0.17"
tokio = { version = "0.2", default-features = false, features = ["io-util", "tcp", "time", "rt-core"] }
tokio-rustls = "0.13"
tokio-socks = "0.2"
tokio-tls = "0.3"
