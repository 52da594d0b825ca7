[package]
name = "session_auth"
version = "0.1.0"
edition = "2021"
publish = false

[dependencies]
base64 = "0.22"
bcrypt = "0.17"
chrono = { version = "0.4", default-features = false, features = ["clock", "std"] }
hex = "0.4"
jsonwebtoken = "9"
rand = "0.9"
serde_json = "1"
sha2 = "0.10"
validator = "0.20"
axum = "0.8"
axum-extra = { version = "0.10", features = ["typed-header"] }
dotenvy = "0.15"
figment = { version = "0.10", features = ["toml", "env"] }
serde = { version = "1", features = ["derive"] }
sqlx = { version = "0.8", default-features = false, features = ["runtime-tokio", "sqlite", "chrono", "migrate"] }
thiserror = "2"
tokio = { version = "1", features = ["macros", "rt-multi-thread", "net", "signal"] }
tower-http = { version = "0.6", features = ["cors", "trace", "request-id", "fs"] }
tower_governor = "*"
tracing = "0.1"
tracing-subscriber = "0.3"
