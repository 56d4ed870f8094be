[package]
name = "remux_library"
version = "0.1.0"
edition = "2021"
publish = false

[dependencies]
anyhow = "1"
async-trait = "0.1"
axum = "0.8"
axum-anyhow = "*"
axum-extra = { version = "*", features = ["query"] }
chrono = "0.4"
futures = "0.3"
http = "1"
isolang = "2"
serde = { version = "1", features = ["derive"] }
sqlx = { version = "0.8", default-features = false, features = ["runtime-tokio", "sqlite", "uuid", "chrono"] }
tracing = "0.1"
uuid = { version = "1", features = ["v4", "v5", "serde"] }
