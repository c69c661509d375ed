[package]
name = "telemetry"
version = "0.1.0"
edition = "2021"
publish = false

[dependencies]
rusqlite = { version = "*", features = ["bundled"] }
sha2 = "*"
serde_json = "*"
chrono = "*"
serde = { version = "*", features = ["derive"] }
sysinfo = "*"
tokio = { version = "*", features = ["rt", "time", "macros"] }
parking_lot = "*"
tracing = "*"

[dev-dependencies]
tempfile = "*"
