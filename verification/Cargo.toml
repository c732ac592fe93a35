[package]
name = "rwrk"
version = "0.1.0"
edition = "2021"
publish = false

[dependencies]
async-stream = "0.3"
axum = { version = "0.8", features = ["ws"] }
chrono = "0.4"
clap = { version = "4", features = ["derive"] }
dashmap = "6"
eventsource-stream = "0.2"
futures = "0.3"
futures-util = "0.3"
prometheus = "0.14"
prost = "0.13"
reqwest = { version = "0.12", default-features = false, features = ["stream", "rustls-tls"] }
serde = { version = "1", features = ["derive"] }
serde_json = "1"
socket2 = "0.5"
tokio = { version = "1", features = ["full"] }
tokio-stream = { version = "0.1", features = ["net"] }
tonic = "0.13"
tracing = "0.1"
tracing-subscriber = "0.3"
