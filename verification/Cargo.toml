[package]
name = "andy"
version = "0.1.0"
edition = "2021"
publish = false

[dependencies]
anyhow = "1"
argh = "0.1"
axum = "0.8"
bytes = "1"
jni = "0.21"
jpeg-encoder = "0.6"
libc = "0.2"
reqwest = { version = "0.12", default-features = false, features = ["json"] }
serde = { version = "1", features = ["derive"] }
serde_json = "1"
tokio = { version = "1", features = ["rt", "time", "sync", "net", "macros"] }
tower-http = { version = "0.6", features = ["compression-zstd"] }
tracing = "0.1"
tracing-subscriber = "0.3"
