[package]
name = "void_edge"
version = "0.1.0"
edition = "2021"
publish = false

[dependencies]
anyhow = "=1.0.104"
aya = "=0.13.1"
aya-log = "=0.2.1"
fastrand = "=2.5.0"
hmac = "=0.12.1"
maxminddb = "=0.23.0"
md5 = "=0.7.0"
percent-encoding = "=2.3.2"
rand = "=0.8.8"
redis = { version = "=0.23.5", features = ["tokio-comp", "aio", "script"] }
reqwest = { version = "=0.11.27", default-features = false, features = ["json", "rustls-tls"] }
serde = { version = "=1.0.229", features = ["derive"] }
serde_json = "=1.0.154"
sha2 = "=0.10.9"
thiserror = "=1.0.69"
tokio = { version = "=1.54.1", features = ["full"] }
tracing = "=0.1.44"
tracing-subscriber = "=0.3.23"
unicode-normalization = "=0.1.26"
