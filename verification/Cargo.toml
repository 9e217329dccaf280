[package]
name = "sqlx_qb"
version = "0.1.0"
edition = "2021"
publish = false

[dependencies]
sqlx = { version = "=0.9.0", default-features = false, features = ["runtime-tokio"] }
serde = { version = "=1.0.229", features = ["derive"] }
serde_json = "=1.0.154"
syn = { version = "=3.0.9", features = ["full"] }
quote = "=1.0.47"
proc-macro2 = "=1.0.107"
darling = "=0.24.1"

[dev-dependencies]
uuid = { version = "=1.29.0", features = ["v4"] }
