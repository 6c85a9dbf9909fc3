[package]
name = "gemini_chat"
version = "0.1.0"
edition = "2021"
publish = false

[dependencies]
chrono = "*"
futures-util = "*"
gemini-rust = "*"
serde = { version = "*", features = ["derive"] }
serde_json = "*"
time = "*"
tokio = { version = "*", features = ["rt-multi-thread", "macros", "time"] }
