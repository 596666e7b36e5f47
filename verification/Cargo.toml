[package]
name = "warpline-core"
version = "0.1.0"
edition = "2021"
publish = false

[dependencies]
anyhow = "=1.0.104"
async-trait = "=0.1.92"
axum = { version = "=0.8.9", features = ["multipart"] }
metrics = "=0.24.6"
reqwest = { version = "=0.12.28", default-features = false }
serde_json = "=1.0.154"
sha2 = "=0.10.9"
sqlx = { version = "=0.8.6", default-features = false, features = ["postgres", "runtime-tokio"] }
tokio = { version = "=1.54.1", features = ["full"] }
tracing = "=0.1.44"
tracing-subscriber = { version = "=0.3.23", features = ["env-filter", "json"] }
wasmtime = "=47.0.4"
wasmtime-wasi = "=47.0.4"
