[package]
name = "backend_runtime"
version = "0.1.0"
edition = "2021"
publish = false

[dependencies]
anyhow = "1"
axum = "0.8"
const-hex = "1"
dynfmt = { version = "*", default-features = false }
futures = "0.3"
hyper-util = { version = "0.1", features = ["client-legacy", "http1", "tokio"] }
libc = "0.2"
mysql_async = { version = "*", default-features = false, features = ["minimal-rust"] }
prometheus = { version = "0.14", default-features = false }
rand_chacha = "0.9"
serde = { version = "1", features = ["derive"] }
serde_json = "1"
tikv-jemalloc-ctl = { version = "*", features = ["stats"] }
tokio = { version = "1", features = ["macros", "rt", "sync", "time"] }
tracing = "0.1"
url = "2"
