[package]
name = "vector_search"
version = "0.1.0"
edition = "2021"
publish = false

[dependencies]
anyhow = "=1.0.104"
async-openai = "=0.23.4"
axum = "=0.6.20"
dotenv = "=0.15.0"
qdrant-client = { version = "=1.9.0", default-features = false, features = ["serde"] }
reqwest = "=0.12.28"
serde = { version = "=1.0.229", features = ["derive"] }
serde_json = "=1.0.154"
tokio = { version = "=1.54.1", features = ["full"] }
tracing = { version = "=0.1.44", features = ["log"] }
tracing-subscriber = "=0.3.23"
uuid = { version = "=1.29.0", features = ["v4"] }
