[package]
name = "livestream_dl"
version = "0.1.0"
edition = "2021"
publish = false

[dependencies]
aes = "=0.9.3"
cbc = { version = "=0.2.1", features = ["alloc", "block-padding"] }
url = "=2.5.8"
lru = "=0.18.5"
isolang = "=2.4.0"
oxilangtag = "=0.1.6"
m3u8-rs = "=6.0.1"
reqwest = { version = "=0.13.5", default-features = false, features = ["rustls", "cookies", "query"] }
reqwest-middleware = { version = "=0.5.2", features = ["query"] }
reqwest-retry = "=0.9.1"
tokio = { version = "*", features = ["rt-multi-thread", "macros", "fs", "io-util", "process", "signal", "sync", "time"] }
futures = "*"
anyhow = "*"
clap = { version = "*", features = ["derive"] }
serde = { version = "*", features = ["derive"] }
serde_json = "*"
tempfile = "*"
inquire = "*"
tracing = "*"
tracing-subscriber = { version = "*", features = ["env-filter"] }
time = { version = "*", features = ["local-offset", "formatting"] }
