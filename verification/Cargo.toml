[package]
name = "metrics_sqlite"
version = "0.1.0"
edition = "2021"
publish = false

[dependencies]
csv = "1"
diesel = { version = "2", features = ["sqlite"] }
diesel_migrations = "2"
log = "0.4"
metrics = "0.21"
serde = { version = "1", features = ["derive"] }
thiserror = "1"
