[package]
name = "rust_backend"
version = "0.1.0"
edition = "2021"
publish = false

[dependencies]
actix-cors = "0.7"
actix-identity = "0.7"
actix-session = { version = "0.9", features = ["cookie-session"] }
actix-web = { version = "4", default-features = false, features = ["macros", "cookies"] }
actix-web-opentelemetry = "0.16"
anyhow = "1"
async-trait = "0.1"
chrono = { version = "=0.4.45", default-features = false, features = ["now", "serde"] }
config = { version = "0.13", default-features = false }
dotenvy = "0.15"
futures-util = "0.3"
mongodb = "2.8"
openidconnect = "3.5"
opentelemetry = { version = "0.21", features = ["metrics", "logs"] }
opentelemetry-appender-tracing = "0.2"
opentelemetry-otlp = { version = "0.14", features = ["metrics", "logs"] }
opentelemetry_sdk = { version = "0.21", features = ["rt-tokio", "metrics", "logs"] }
rand = "=0.8.8"
serde = { version = "1", features = ["derive"] }
serde_json = "1"
tracing = "0.1"
tracing-log = "0.2"
tracing-opentelemetry = "0.22"
tracing-subscriber = { version = "0.3", default-features = false, features = ["env-filter", "fmt", "registry", "std"] }
