[package]
name = "ksearch"
version = "0.1.0"
edition = "2021"
publish = false

[dependencies]
ahash = "0.8"
anyhow = "1"
axum = "0.7"
clap = { version = "4", features = ["derive"] }
futures-util = "0.3"
metal = "0.29"
objc = "0.2"
serde = { version = "1", features = ["derive"] }
serde_json = "1"
thiserror = "1"
tokenizers = { version = "0.22", default-features = false, features = ["fancy-regex"] }
tokio = { version = "1", features = ["rt-multi-thread", "macros", "net", "sync", "time"] }
tokio-stream = "0.1"
uuid = { version = "1", features = ["v4"] }
