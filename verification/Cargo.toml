[package]
name = "auth_service"
version = "0.1.0"
edition = "2021"
publish = false

[dependencies]
validator = "0.16"
uuid = { version = "1", features = ["v4"] }
rand = "0.8"
argon2 = "0.5"
axum = "0.7"
axum-extra = { version = "0.9", features = ["cookie"] }
tokio = { version = "1", features = ["rt-multi-thread", "net", "sync", "macros"] }
serde = { version = "1", features = ["derive"] }
sqlx = { version = "0.8", default-features = false, features = ["runtime-tokio-rustls", "postgres"] }
redis = "0.25"
tower-http = { version = "0.5", features = ["fs", "cors"] }
async-trait = "0.1"
