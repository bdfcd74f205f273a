[package]
name = "linkcheck"
version = "0.1.0"
edition = "2021"
publish = false

[dependencies]
lychee-lib = { version = "=0.14.3", default-features = false, features = ["rustls-tls"] }
reqwest = { version = "0.11", default-features = false }
tokio = { version = "1", features = ["rt-multi-thread", "sync"] }
url = "2"
