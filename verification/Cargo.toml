[package]
name = "sdkwork-log"
version = "0.1.0"
edition = "2021"
publish = false

[dependencies]
sha2 = "0.10"
getrandom = "0.2"
serde = { version = "1", features = ["derive"] }
serde_json = "1"
async-trait = "0.1"
axum = "0.8"
bytes = "1"
http = "1"
http-body = "1"
http-body-util = "0.1"
tokio = { version = "1", features = ["rt", "macros", "sync"] }
tower = { version = "0.5", features = ["util"] }
tracing = "0.1"
dotenvy = "0.15"
sqlx = { version = "0.8", default-features = false, features = ["runtime-tokio", "postgres", "sqlite", "macros", "migrate"] }
