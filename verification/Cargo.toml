[package]
name = "formcore"
version = "0.1.0"
edition = "2021"
publish = false

[dependencies]
uuid = { version = "1", features = ["v4"] }
serde = { version = "1", features = ["derive"] }
serde_json = "1"
redis = { version = "*", features = ["tokio-comp", "connection-manager"] }
serenity = { version = "0.12", features = ["collector"] }
tokio = { version = "1", features = ["macros", "rt-multi-thread"] }
