[package]
name = "server_framework"
version = "0.1.0"
edition = "2021"
publish = false

[dependencies]
tokio = { version = "1", features = ["full"] }
serde = { version = "1", features = ["derive"] }
bincode = "1.3"
bytes = "1"
futures = "0.3"
threadpool = "1.8"
async-trait = "0.1"
auto_impl = "1"
