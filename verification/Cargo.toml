[package]
name = "presence"
version = "0.1.0"
edition = "2021"
publish = false

[dependencies]
chrono = "0.4"
dotenv = "0.15"
futures = "0.3"
ginger-shared-rs = "=0.51.0-nightly.0"
redis = { version = "0.27", features = ["tokio-comp", "connection-manager"] }
rocket = { version = "0.5", features = ["json"] }
rocket_okapi = { version = "0.8", features = ["swagger"] }
rocket_prometheus = "0.10"
schemars = "0.8"
serde = { version = "1", features = ["derive"] }
serde_json = "1"
tokio = { version = "1", features = ["full"] }
uuid = { version = "1", features = ["v4"] }
