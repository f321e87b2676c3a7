[package]
name = "mcagent"
version = "0.1.0"
edition = "2021"
publish = false

[dependencies]
toml = "0.8"
sha1 = "0.10"
hex = "0.4"
serde = { version = "1", features = ["derive"] }
serde_json = "1"
rmcp = { version = "0.3", features = ["server", "transport-io", "macros"] }
schemars = "1"
tokio = { version = "1", features = ["full"] }
tracing = "0.1"
tracing-subscriber = { version = "0.3", features = ["env-filter"] }
anyhow = "1"
walkdir = "2"
reflink-copy = "0.1"
tempfile = "3"
wasmtime = "29"
wasmtime-wasi = "29"
wasmtime-wasi-http = "29"
