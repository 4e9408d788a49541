[package]
name = "saki_home_bot"
version = "0.1.0"
edition = "2021"
publish = false

[dependencies]
anyhow = "1"
dotenv = "0.15"
log = "0.4"
reqwest = { version = "=0.11.27", features = ["json"] }
serde = { version = "1", features = ["derive"] }
takecell = "=0.1.1"
teloxide = { version = "=0.11.3", features = ["macros", "auto-send"] }
tokio = { version = "1", features = ["rt-multi-thread", "macros", "time"] }
tracing-subscriber = "0.3"
