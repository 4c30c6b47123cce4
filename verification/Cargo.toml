[package]
name = "fus_client"
version = "0.1.0"
edition = "2021"
publish = false

[dependencies]
aes = "0.8"
base64ct = "1"
md-5 = "0.10"
anyhow = "1"
clap = { version = "4", features = ["cargo"] }
futures-util = "0.3"
indicatif = "0.17"
reqwest = { version = "0.12", default-features = false, features = ["cookies", "stream"] }
roxmltree = "*"
tokio = { version = "1", features = ["fs", "io-util", "macros", "rt-multi-thread"] }
tokio-util = { version = "0.7", features = ["io"] }
tracing = "0.1"
tracing-subscriber = "0.3"
