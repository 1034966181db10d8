[package]
name = "rustbox"
version = "0.1.0"
edition = "2021"
publish = false

[dependencies]
ipnet = "=2.12.2"
httparse = "=1.10.1"
rcgen = "=0.13.2"
serde = { version = "=1.0.229", features = ["derive"] }
serde_json = "=1.0.154"
tokio = { version = "=1.54.1", features = ["full"] }
uuid = { version = "=1.29.0", features = ["v7"] }
chrono = { version = "=0.4.45", features = ["serde"] }
rusqlite = { version = "=0.32.1", features = ["bundled"] }
axum = "0.8"
reqwest = { version = "0.12", default-features = false, features = ["json", "rustls-tls"] }
tokio-stream = { version = "0.1", features = ["sync"] }
nix = { version = "0.29", features = ["signal"] }
tar = "0.4"
zstd = "0.13"
rustls = { version = "0.23", default-features = false, features = ["ring", "std", "tls12", "logging"] }
tokio-rustls = { version = "0.26", default-features = false, features = ["ring", "tls12", "logging"] }
rustls-pemfile = "2"
async-trait = "0.1"
anyhow = "1"
thiserror = "2"
tracing = "0.1"
tracing-subscriber = { version = "0.3", features = ["env-filter"] }
tokio-vsock = "0.7"
libc = "0.2"

[dev-dependencies]
tempfile = "3"
