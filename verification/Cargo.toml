[package]
name = "rinr"
version = "0.1.0"
edition = "2021"
publish = false

[dependencies]
chrono = { version = "=0.4.45", features = ["serde"] }
regex = "=1.13.1"
serde = { version = "=1.0.229", features = ["derive"] }
serde_json = "=1.0.154"
serenity = { version = "=0.12.5", default-features = false, features = ["client", "gateway", "model", "http", "cache", "rustls_backend"] }
tokio = { version = "=1.54.1", features = ["rt-multi-thread", "macros", "fs", "io-util", "time"] }
dotenvy = "=0.15.7"
rand = "=0.8.8"
youtube_dl = { version = "=0.10.0", default-features = false }
scraper = { version = "=0.29.0", default-features = false }
mp3-duration = "=0.1.10"
thirtyfour = "*"
