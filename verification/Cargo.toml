[package]
name = "econym"
version = "0.1.0"
edition = "2021"
publish = false

[dependencies]
anyhow = "=1.0.104"
arrow-array = "=59.3.2"
parquet = { version = "=59.3.2", default-features = false, features = ["arrow"] }
geoparquet = "=0.9.0"
kiddo = { version = "=4.2.1", features = ["serialize_rkyv"] }
memmap2 = "=0.9.12"
rkyv = { version = "=0.7.46", default-features = false, features = ["std", "size_64"] }
clap = { version = "=4.6.7", features = ["derive"] }
tokio = { version = "=1.54.1", features = ["rt-multi-thread", "net"] }
axum = "=0.8.9"
serde = { version = "=1.0.229", features = ["derive"] }
tower-http = { version = "=0.7.1", features = ["cors"] }
