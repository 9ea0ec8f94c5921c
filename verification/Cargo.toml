[package]
name = "repodata_cache"
version = "0.1.0"
edition = "2021"
publish = false

[dependencies]
anyhow = "=1.0.104"
async-compression = { version = "=0.4.51", features = ["tokio", "bzip2", "zstd"] }
futures = "=0.3.34"
rattler_conda_types = "=0.12.3"
rattler_networking = { version = "0.12", default-features = false }
rattler_repodata_gateway = { version = "0.12", default-features = false }
reqwest = { version = "=0.11.27", default-features = false, features = ["stream"] }
serde_json = "=1.0.154"
tokio = { version = "=1.54.1", features = ["io-util", "rt", "sync"] }
tokio-util = { version = "=0.7.20", features = ["io"] }
tracing = "=0.1.44"
