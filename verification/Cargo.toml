[package]
name = "simplesolat"
version = "0.1.0"
edition = "2021"
publish = false

[dependencies]
chrono = "=0.4.45"
chrono-tz = "=0.10.4"
serde = { version = "=1.0.229", features = ["derive"] }
serde_json = "=1.0.151"
serde_yaml = "=0.9.34"
reqwest = { version = "=0.13.5", default-features = false, features = ["json", "query", "form"] }
tokio = { version = "=1.53.2", features = ["rt-multi-thread", "macros", "time"] }
