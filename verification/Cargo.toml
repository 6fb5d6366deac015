[package]
name = "sidestep"
version = "0.3.0"
edition = "2021"
publish = false

[dependencies]
sha2 = "=0.10.9"
minisign-verify = "=0.2.5"
serde = { version = "=1.0.229", features = ["derive"] }
serde_yaml = "=0.9.34"
serde_json = "=1.0.154"
flate2 = "=1.1.10"
tar = "=0.4.46"
xz2 = "=0.1.7"
zip = { version = "=2.6.1", default-features = false, features = ["deflate"] }
reqwest = { version = "=0.12.28", default-features = false, features = ["rustls-tls", "stream"] }
tokio = { version = "=1.54.1", features = ["rt", "fs", "process", "time", "io-util", "macros", "signal"] }
futures-util = "=0.3.34"
dirs = "=5.0.1"
anyhow = "=1.0.104"
log = "=0.4.35"
