[package]
name = "ws"
version = "0.1.0"
edition = "2021"
publish = false

[dependencies]
regex = "=1.13.1"
serde = { version = "=1.0.229", features = ["derive"] }
serde_json = { version = "=1.0.154", features = ["preserve_order"] }
toml = "=0.8.23"
sqlx = { version = "=0.8.6", default-features = false, features = ["sqlite", "runtime-tokio", "macros", "derive", "migrate"] }
tokio = { version = "=1.54.1", features = ["full"] }
axum = "=0.8.9"
clap = { version = "=4.6.7", features = ["derive"] }
dotenv = "=0.15.0"
jsonwebtoken = "=9.3.1"
tracing-subscriber = "=0.3.23"
rand = "=0.9.5"
thiserror = "=2.0.21"
validator = { version = "=0.20.0", features = ["derive"] }
lazy_static = "=1.5.1"
