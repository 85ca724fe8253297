[package]
name = "contextx"
version = "0.1.0"
edition = "2021"
publish = false

[dependencies]
serde_json = "1"
subtle = "2"
serde = { version = "1", features = ["derive"] }
schemars = "1"
rmcp = { version = "*", features = ["server", "macros", "transport-streamable-http-server"] }
axum = "0.8"
tokio = { version = "1", features = ["macros", "rt-multi-thread", "net"] }
reqwest = { version = "0.12", default-features = false, features = ["json", "stream", "rustls-tls"] }
eventsource-stream = "0.2"
futures-util = "0.3"
dotenvy = "0.15"
