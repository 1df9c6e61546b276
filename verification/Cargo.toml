[package]
name = "gem_finder"
version = "0.1.0"
edition = "2021"
publish = false

[dependencies]
sha2 = "=0.10.9"
hex = "=0.4.3"
serde = { version = "=1.0.229", features = ["derive"] }
serde_json = "=1.0.154"
chrono = "=0.4.45"
jsonwebtoken = { version = "=10.4.0", features = ["rust_crypto"] }
uuid = { version = "=1.29.0", features = ["v4"] }
axum = "=0.8.9"
tokio = { version = "=1.54.1", features = ["sync", "time", "macros", "rt-multi-thread"] }
reqwest = { version = "0.12", default-features = false, features = ["json", "rustls-tls"] }
lettre = { version = "0.11", default-features = false, features = ["builder", "smtp-transport", "tokio1", "tokio1-rustls-tls"] }
turso = { version = "0.8", default-features = false }
