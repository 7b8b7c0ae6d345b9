[package]
name = "backend_rs"
version = "0.1.0"
edition = "2021"
publish = false

[dependencies]
anyhow = "=1.0.104"
axum = "=0.7.9"
chrono = { version = "=0.4.45", features = ["serde"] }
dotenv = "=0.15.0"
opensearch = { version = "=2.4.0", default-features = false }
serde = { version = "=1.0.229", features = ["derive"] }
serde_json = "=1.0.154"
sqlx = { version = "=0.7.4", default-features = false, features = ["postgres", "runtime-tokio", "chrono", "json"] }
tokio = { version = "=1.54.1", features = ["full"] }
tower-http = { version = "=0.5.2", features = ["trace"] }
tracing = "=0.1.44"
tracing-subscriber = { version = "=0.3.23", features = ["env-filter"] }
utoipa = { version = "5", features = ["axum_extras", "chrono"] }
