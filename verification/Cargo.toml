[package]
name = "rust_log_collector"
version = "0.1.0"
edition = "2021"
publish = false

[dependencies]
chrono = "0.4"
serde = { version = "1", features = ["derive"] }
serde_json = "1"
mongodb = "3"
tokio = { version = "1", features = ["macros", "rt-multi-thread", "signal", "time"] }
futures = "0.3"
