[package]
name = "sso_relay"
version = "0.1.0"
edition = "2021"
publish = false

[dependencies]
num-bigint = "0.4"
serde_json = "1"
regex = "1"
reqwest = { version = "0.12", default-features = false, features = ["rustls-tls"] }
tokio = { version = "1", features = ["rt-multi-thread", "macros", "sync"] }
