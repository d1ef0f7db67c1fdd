[package]
name = "zero2prod"
version = "0.1.0"
edition = "2021"
publish = false

[dependencies]
anyhow = "1"
async-fred-session = "=0.1.5"
axum = "=0.6.20"
axum-extra = { version = "=0.7.7", features = ["cookie-signed"] }
axum-sessions = "=0.5.0"
chrono = { version = "=0.4.45", default-features = false, features = ["clock"] }
cookie = { version = "=0.17.0", features = ["signed", "percent-encode"] }
fred = "=6.3.2"
hyper = "=0.14.32"
rand = "=0.8.8"
reqwest = { version = "0.11", default-features = false, features = ["json", "rustls-tls"] }
secrecy = { version = "=0.8.0", features = ["serde"] }
serde = { version = "1", features = ["derive"] }
serde_json = "1"
sqlx = { version = "=0.6.3", default-features = false, features = ["runtime-tokio-rustls", "postgres", "uuid", "chrono"] }
thiserror = "1"
tokio = { version = "1", features = ["macros", "rt-multi-thread"] }
tower = "=0.4.13"
tower-http = { version = "=0.4.4", features = ["cors", "request-id", "trace"] }
tracing = "0.1"
uuid = { version = "=1.29.0", features = ["v4", "serde"] }
