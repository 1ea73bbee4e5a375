[package]
name = "praxis_ai_filters"
version = "0.1.0"
edition = "2021"
publish = false

[dependencies]
serde = { version = "=1.0.229", features = ["derive"] }
serde_json = "=1.0.154"
serde_yaml = "=0.9.34"
percent-encoding = "=2.3.2"
chrono = { version = "=0.4.45", default-features = false, features = ["std", "alloc", "now"] }
jsonwebtoken = "=9.3.1"
http = "=1.5.0"
bytes = "=1.12.1"
tokio = { version = "=1.54.1", features = ["rt", "sync", "macros", "time"] }
reqwest = { version = "=0.12.28", default-features = false, features = ["json"] }
