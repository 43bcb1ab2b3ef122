[package]
name = "skip_if_tree_ok_in_past"
version = "0.1.0"
edition = "2021"
publish = false

[dependencies]
git2 = "=0.18.3"
anyhow = "=1.0.104"
hyper = { version = "=0.14.32", features = ["client", "http1", "tcp"] }
hyper-rustls = { version = "=0.24.2", features = ["webpki-tokio"] }
hyper-tls = "=0.5.0"
serde = { version = "=1.0.229", features = ["derive"] }
serde_json = "=1.0.151"
tempfile = "=3.27.0"
tokio = { version = "=1.53.2", features = ["rt", "macros", "fs", "time"] }
zip = { version = "=0.6.6", default-features = false, features = ["deflate"] }
