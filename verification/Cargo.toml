[package]
name = "musicman"
version = "0.1.0"
edition = "2021"
publish = false

[dependencies]
uuid = { version = "=1.29.0", features = ["v4", "v5", "serde"] }
tabled = "=0.22.0"
colored = "=3.1.1"
dirs = "=7.0.0"
anyhow = "=1.0.104"
serde = { version = "=1.0.229", features = ["derive"] }
serde_json = "=1.0.154"
tokio = { version = "=1.54.1", features = ["rt-multi-thread", "macros", "net", "io-util", "sync", "fs"] }
tracing = "=0.1.44"
tracing-subscriber = "=0.3.23"
walkdir = "=2.5.0"
symphonia = { version = "=0.5.5", features = ["mp3", "aac", "isomp4"] }
rodio = { version = "=0.19.0", default-features = false }
reedline = "=0.52.1"
nu-ansi-term = "=0.50.3"

[dev-dependencies]
bincode = "=1.3.3"
