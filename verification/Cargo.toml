[package]
name = "m3u8_downloader"
version = "0.1.0"
edition = "2021"
publish = false

[dependencies]
url = "2"
hex = "0.4"
aes = "0.8"
cbc = "0.1"
serde = { version = "1", features = ["derive"] }
serde_json = "1"
tokio = { version = "1", features = ["full"] }
tokio-util = "0.7"
dashmap = "*"
chrono = "0.4"
uuid = { version = "1", features = ["v4"] }
directories = "*"
open = "*"
futures-util = "0.3"
reqwest = { version = "*", features = ["stream"] }
zstd = "*"
tracing = "0.1"
tracing-appender = "0.2"
tracing-subscriber = { version = "0.3", features = ["env-filter"] }
