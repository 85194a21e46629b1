[package]
name = "live_reminder"
version = "0.1.0"
edition = "2021"
publish = false

[dependencies]
rand = "=0.7.3"
serde = { version = "=1.0.229", features = ["derive"] }
serde_json = "=1.0.154"
mongodb = { version = "=1.2.5", default-features = false, features = ["sync"] }
tokio = { version = "=0.2.25", features = ["full"] }
futures = "=0.3.34"
telegram-bot = "=0.7.0"
reqwest = "=0.10.10"
job_scheduler = "=1.2.1"
stoppable_thread = "=0.2.1"
