[package]
name = "nanos"
version = "0.1.0"
edition = "2021"
publish = false

[dependencies]
anyhow = "=1.0.104"
axum = "=0.7.9"
clap = { version = "=4.6.7", features = ["derive"] }
llama-cpp-2 = "=0.1.160"
rayon = "=1.12.0"
rusqlite = { version = "=0.41.1", features = ["bundled"] }
serde = { version = "=1.0.229", features = ["derive"] }
serde_json = "=1.0.154"
serde_yaml = "=0.9.34"
tokio = { version = "=1.54.1", features = ["rt-multi-thread", "net", "macros"] }
tracing = "=0.1.44"
tracing-subscriber = "=0.3.23"
ureq = { version = "=2.12.1", features = ["json"] }
wasmtime = "=45.0.3"
