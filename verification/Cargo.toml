[package]
name = "deka_core"
version = "0.1.0"
edition = "2021"
publish = false

[dependencies]
scraper = "*"
url = "*"
reqwest = { version = "*", default-features = false }
fantoccini = { version = "*", default-features = false, features = ["rustls-tls"] }
tokio = { version = "*", features = ["rt", "macros", "sync", "time", "fs", "io-util"] }
futures = "*"
serde = { version = "*", features = ["derive"] }
serde_json = "*"
