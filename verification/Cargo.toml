[package]
name = "rweb"
version = "0.1.0"
edition = "2021"
publish = false

[dependencies]
http = "0.2"
bytes = "1"
encoding_rs = "0.8"
serde_urlencoded = "0.7"
serde = { version = "1", features = ["derive"] }
futures = "0.3"
warp = "0.3"
scoped-tls = "1"
