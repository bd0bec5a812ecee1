[package]
name = "tress"
version = "0.1.0"
edition = "2021"
publish = false

[dependencies]
atom_syndication = "*"
rss = "*"
chrono = "*"
scraper = "*"
tokio = { version = "*", features = ["macros", "rt-multi-thread", "sync", "time", "signal", "net"] }
axum = "*"
reqwest = { version = "*", default-features = false }
serde = { version = "*", features = ["derive"] }
serde_json = "*"
web-push-native = "*"
base64ct = { version = "*", features = ["alloc"] }
