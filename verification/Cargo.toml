[package]
name = "blaniel_npc"
version = "0.1.0"
edition = "2021"
publish = false

[dependencies]
url = "=2.5.8"
rand = "=0.8.8"
lru = "=0.12.5"
priority-queue = "=2.7.0"
chrono = { version = "=0.4.45", default-features = false, features = ["clock"] }
ulid = "=1.2.1"
serde_json = "=1.0.154"
serde = { version = "=1.0.229", features = ["derive"] }
tokio = { version = "=1.54.1", features = ["rt-multi-thread", "macros", "time", "sync"] }
reqwest = { version = "=0.12.28", default-features = false, features = ["json", "stream", "rustls-tls"] }
futures = "=0.3.34"
jsonwebtoken = "=9.3.1"
hmac = "=0.12.1"
sha2 = "=0.10.9"
hex = "=0.4.3"
uuid = { version = "=1.29.0", features = ["v4"] }
axum = "=0.7.9"
