[package]
name = "demo"
version = "0.1.0"
edition = "2021"
publish = false

[dependencies]
axum = "=0.8.9"
tokio = { version = "=1.54.1", features = ["full"] }
bb8 = "=0.9.1"
bb8-postgres = "=0.9.0"
tokio-postgres = { version = "=0.7.18", features = ["with-chrono-0_4"] }
redis = { version = "=1.8.1", features = ["tokio-comp", "bb8"] }
tera = "=1.20.1"
chrono = { version = "=0.4.45", features = ["serde"] }
serde = { version = "=1.0.229", features = ["derive"] }
serde_json = "=1.0.154"
dotenv = "=0.15.0"
tracing = "=0.1.44"
jwt-simple = { version = "=0.12.17", default-features = false, features = ["pure-rust", "jwe"] }
pbkdf2 = { version = "=0.12.2", features = ["simple"] }
rand = "=0.9.5"
sqlx = { version = "0.8", default-features = false, features = ["postgres", "runtime-tokio", "chrono"] }
