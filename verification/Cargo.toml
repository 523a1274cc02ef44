[package]
name = "pqsigner"
version = "0.1.0"
edition = "2021"
publish = false

[dependencies]
anyhow = "1"
axum = "0.7"
base64 = "0.21"
pqcrypto-dilithium = "*"
pqcrypto-kyber = "*"
pqcrypto-sphincsplus = "*"
pqcrypto-traits = "*"
serde = { version = "1", features = ["derive"] }
sha2 = "0.10"
tokio = { version = "1", features = ["full"] }
tower-http = { version = "0.5", features = ["cors", "trace"] }
tracing = "0.1"
tracing-subscriber = { version = "0.3", features = ["env-filter"] }
