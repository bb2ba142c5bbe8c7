[package]
name = "metw-id"
version = "0.1.0"
edition = "2021"
publish = false

[dependencies]
chrono = "0.4"
serde = { version = "1", features = ["derive"] }
serde_with = "3"
sqlx = { version = "0.8", default-features = false, features = ["postgres", "runtime-tokio"] }
utoipa = "5"
pastey = "*"
axum = "0.8"
http = "1"
tokio = { version = "1", features = ["net", "signal", "macros", "rt-multi-thread"] }
tower-http = { version = "*", features = ["trace", "cors"] }
tracing = "0.1"
tracing-subscriber = { version = "0.3", features = ["env-filter", "fmt"] }
opentelemetry = "*"
opentelemetry_sdk = "*"
opentelemetry-otlp = { version = "*", features = ["grpc-tonic"] }
tracing-opentelemetry = "*"
