[package]
name = "eventhorizon"
version = "0.1.0"
edition = "2021"
publish = false

[dependencies]
anyhow = "1"
arc-swap = "1"
async-trait = "0.1"
axum = { version = "0.8", default-features = false, features = ["json", "tokio", "http1"] }
chrono = { version = "0.4", default-features = false, features = ["std"] }
datafusion = { version = "*", default-features = false }
futures = { version = "0.3", default-features = false, features = ["std"] }
hex = "0.4"
metrics = "0.24"
metrics-exporter-prometheus = { version = "0.17", default-features = false }
rust_decimal = { version = "1", default-features = false, features = ["std"] }
serde = { version = "1", features = ["derive"] }
serde_json = "1"
serde_yaml = "0.9"
sqlx = { version = "0.8", default-features = false, features = ["mysql", "runtime-tokio", "uuid", "chrono", "rust_decimal", "json"] }
thiserror = "2"
tokio = { version = "1", features = ["rt-multi-thread", "macros", "net", "signal"] }
tracing = "0.1"
tracing-subscriber = { version = "0.3", features = ["json", "env-filter"] }
uuid = { version = "1", features = ["v7"] }
