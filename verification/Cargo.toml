[package]
name = "surflux_terminal"
version = "0.1.0"
edition = "2021"
publish = false

[dependencies]
rust_decimal = "1"
dashmap = "6"
time = { version = "0.3", features = ["parsing", "formatting"] }
serde = { version = "1", features = ["derive"] }
serde_json = "1"
anyhow = "1"
tokio = { version = "1", features = ["rt-multi-thread", "macros", "sync", "time"] }
tokio-stream = "0.1"
futures = "0.3"
bytes = "1"
reqwest = { version = "0.12", default-features = false, features = ["json", "stream", "rustls-tls"] }
tracing = "0.1"
crossterm = "0.27"
ratatui = "0.24"
