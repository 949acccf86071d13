[package]
name = "auth_core"
version = "0.1.0"
edition = "2021"
publish = false

[dependencies]
rust-argon2 = "=1.0.1"
rand = "=0.8.8"
chrono = "=0.4.45"
paseto = { version = "=2.0.2", default-features = false, features = ["v2", "easy_tokens_chrono"] }
failure = "=0.1.8"
serde = { version = "=1.0.229", features = ["derive"] }
serde_json = "=1.0.154"
warp = { version = "=0.3.7", default-features = false }
tokio = { version = "=1.54.1", features = ["full"] }
sqlx = { version = "=0.5.13", default-features = false, features = ["runtime-tokio-rustls", "postgres"] }
tracing = "=0.1.44"
tracing-subscriber = { version = "=0.3.23", features = ["env-filter"] }
clap = { version = "=3.2.25", features = ["derive"] }
dotenv = "=0.15.0"
