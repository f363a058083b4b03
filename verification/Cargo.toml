[package]
name = "madis"
version = "0.1.0"
edition = "2021"
publish = false

[dependencies]
log = "0.4"
redis = "0.27"
serde = { version = "1", features = ["derive"] }
serde_json = "1"
sqlx = { version = "0.8", default-features = false, features = ["sqlite", "runtime-tokio", "migrate"] }
