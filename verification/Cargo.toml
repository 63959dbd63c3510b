[package]
name = "shortener"
version = "0.1.0"
edition = "2021"
publish = false

[dependencies]
nanoid = "*"
url = "*"
axum = "*"
serde = { version = "*", features = ["derive"] }
serde_json = "*"
sqlx = { version = "*", default-features = false, features = ["postgres", "runtime-tokio"] }
tokio = { version = "*", features = ["macros", "rt-multi-thread", "net"] }
tower-http = { version = "*", features = ["cors", "trace"] }
tracing = "*"
tracing-subscriber = "*"
dotenvy = "*"
