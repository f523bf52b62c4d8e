[package]
name = "stockr"
version = "0.1.0"
edition = "2021"
publish = false

[dependencies]
chrono = "0.4"
clap = { version = "4", features = ["derive"] }
tokio = { version = "1", features = ["macros", "rt-multi-thread"] }
yahoo_finance_api = "*"

[dev-dependencies]
serde_json = "1"
