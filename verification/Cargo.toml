[package]
name = "tee_engine"
version = "0.1.0"
edition = "2021"
publish = false

[dependencies]
serde_json = "*"
hex = "*"
sha2 = "*"
serde = { version = "*", features = ["derive"] }
reqwest = { version = "*", default-features = false, features = ["blocking", "json"] }
tokio = { version = "*", features = ["rt-multi-thread", "macros", "time"] }
dotenv = "*"
tracing = "*"
tracing-subscriber = "*"
soroban-client = "*"
