[package]
name = "brainbow"
version = "0.1.0"
edition = "2021"
publish = false

[dependencies]
chrono = { version = "=0.4.45", default-features = false, features = ["std", "clock"] }
serde = { version = "=1.0.229", features = ["derive"] }
axum = "=0.8.9"
tokio = { version = "=1.54.1", features = ["full"] }
sea-orm = { version = "=2.0.4", default-features = false, features = ["macros", "with-chrono", "sqlx-sqlite", "runtime-tokio", "entity-registry", "schema-sync"] }
askama = "=0.16.1"
