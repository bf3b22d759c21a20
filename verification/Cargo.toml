[package]
name = "patchwork"
version = "0.1.0"
edition = "2021"
publish = false

[dependencies]
automerge = "=0.7.4"
automerge_repo = { version = "=0.3.0", features = ["tokio"] }
futures = "=0.3.34"
tokio = { version = "=1.53.2", features = ["full"] }
