[package]
name = "contest_core"
version = "0.1.0"
edition = "2021"
publish = false

[dependencies]
serde = { version = "=1.0.229", features = ["derive"] }
serde_json = "=1.0.151"
serenity = { version = "=0.10.10", features = ["unstable_discord_api"] }
tokio = { version = "=1.53.2", features = ["macros", "rt-multi-thread", "time"] }
