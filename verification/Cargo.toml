[package]
name = "axum-example-app"
version = "0.1.0"
edition = "2021"
publish = false

[dependencies]
ammonia = "*"
chrono = { version = "*", default-features = false, features = ["clock", "std"] }
serde_urlencoded = "*"
uuid = { version = "*", features = ["v7"] }
validator = { version = "*", default-features = false }
serde = { version = "*", features = ["derive"] }
serde_json = "*"
anyhow = "*"
axum = "0.8"
tokio = { version = "1", features = ["macros", "rt-multi-thread", "net", "time", "sync"] }
tower-cookies = "*"
askama = "*"
sea-orm = { version = "1", default-features = false, features = ["macros", "with-chrono", "with-uuid", "with-json"] }
redis = { version = "*", default-features = false, features = ["tokio-comp", "connection-manager"] }
tracing = "*"
tracing-subscriber = { version = "*", features = ["env-filter"] }
tracing-appender = "*"
tower-http = { version = "*", default-features = false, features = ["compression-gzip", "set-header", "trace", "fs"] }
tower_governor = "*"
governor = "*"
dotenvy = "*"
futures = "*"
tokio-stream = { version = "*", features = ["sync"] }
once_cell = "*"
rust-embed = "*"
axum-embed = "*"
