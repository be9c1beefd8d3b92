[package]
name = "cozo-bin"
version = "0.1.0"
edition = "2021"
publish = false

[dependencies]
cozo = { version = "=0.7.6", default-features = false, features = ["graph-algo", "storage-sqlite"] }
serde_json = "=1.0.154"
serde = { version = "=1.0.229", features = ["derive"] }
serde_derive = "=1.0.229"
minreq = "=2.14.1"
clap = { version = "=4.6.7", features = ["derive"] }
axum = "=0.7.9"
tokio = { version = "=1.54.1", features = ["rt-multi-thread", "macros"] }
env_logger = "=0.10.2"
prettytable = "=0.10.0"
