[package]
name = "price_tracker"
version = "0.1.0"
edition = "2021"
publish = false

[dependencies]
jsonwebtoken = "=9.3.1"
hex = "=0.4.3"
chrono = "=0.4.45"
serde = { version = "=1.0.229", features = ["derive"] }
serde_json = { version = "=1.0.154", features = ["preserve_order"] }
thiserror = "=2.0.21"
argon2 = { version = "=0.5.3", features = ["std"] }
tokio = { version = "=1.54.1", features = ["rt-multi-thread", "macros", "sync", "time"] }
redis = { version = "=0.27.6", features = ["tokio-comp"] }
tonic = { version = "=0.14.9", default-features = false }
axum = "=0.8.9"
tracing = "=0.1.44"

[dev-dependencies]
rand = "=0.8.8"
