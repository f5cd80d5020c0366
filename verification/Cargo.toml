[package]
name = "kadium"
version = "0.1.0"
edition = "2021"
publish = false

[dependencies]
chrono = "*"
serde_json = "*"
serde = { version = "*", features = ["derive"] }
tokio = { version = "*", features = ["rt-multi-thread", "time", "sync", "macros"] }
reqwest = { version = "*", default-features = false, features = ["rustls-tls", "json"] }
sqlx = { version = "*", default-features = false, features = ["runtime-tokio", "sqlite"] }

[dev-dependencies]
iso8601-duration = "*"
