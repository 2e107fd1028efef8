[package]
name = "docsearch"
version = "0.1.0"
edition = "2021"
publish = false

[dependencies]
url = "=2.5.8"
fuzzy-matcher = "=0.3.7"
dashmap = "=5.5.3"
voyager = "=0.2.1"
tantivy = "=0.21.1"
# Not used directly: held at this version so that the compression layer
# under tantivy 0.21 builds.
zstd-sys = "=2.0.9"
axum = "=0.8.9"
hyper = "=1.12.0"
tower-http = { version = "=0.6.11", features = ["cors", "trace"] }
tokio = { version = "=1.54.1", features = ["full"] }
futures = "=0.3.34"
serde = { version = "=1.0.229", features = ["derive"] }
serde_json = "=1.0.154"
anyhow = "=1.0.104"
thiserror = "=1.0.69"
tracing = "=0.1.44"
