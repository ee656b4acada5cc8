[package]
name = "qdctl"
version = "0.1.0"
edition = "2021"
publish = false

[dependencies]
anyhow = "=1.0.104"
apache-avro = "0.21.0"
clap = { version = "=4.6.7", features = ["derive", "env"] }
qdrant-client = "=1.20.0"
serde = { version = "=1.0.229", features = ["derive"] }
serde_json = "=1.0.154"
tokio = { version = "=1.54.1", features = ["macros", "rt-multi-thread"] }
