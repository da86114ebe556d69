[package]
name = "twitch_bot"
version = "0.1.0"
edition = "2021"
publish = false

[dependencies]
twitch_message = "*"
tokio = { version = "1", features = ["rt", "net", "io-util", "sync", "time", "macros"] }
serde = { version = "1", features = ["derive"] }
async-trait = "0.1"
