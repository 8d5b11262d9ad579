[package]
name = "chat_watcher"
version = "0.1.0"
edition = "2021"
publish = false

[dependencies]
regex = "*"
chrono = "*"
serde = { version = "*", features = ["derive"] }
ron = "*"
irc = { version = "*", default-features = false }
tokio = { version = "*", features = ["full"] }
futures = "*"
