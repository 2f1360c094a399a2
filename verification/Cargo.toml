[package]
name = "sleepplanet-backend"
version = "0.1.0"
edition = "2021"
publish = false

[dependencies]
anyhow = "1"
argon2 = "0.5"
chrono = { version = "0.4", default-features = false, features = ["clock"] }
figment = { version = "0.10", features = ["toml", "env"] }
jsonwebtoken = "9"
rand = "0.8"
salvo = { version = "*", features = ["jwt-auth"] }
serde = { version = "1", features = ["derive"] }
serde_json = "1"
sqlx = { version = "0.8", default-features = false, features = ["postgres", "runtime-tokio", "time"] }
time = "0.3"
tokio = { version = "1", features = ["macros", "rt-multi-thread", "signal", "sync"] }
tracing = "0.1"
tracing-appender = "0.2"
tracing-subscriber = { version = "0.3", features = ["env-filter", "json"] }
validator = "*"
