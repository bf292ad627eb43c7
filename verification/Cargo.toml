[package]
name = "star_history"
version = "0.1.0"
edition = "2021"
publish = false

[dependencies]
chrono = { version = "=0.4.45", features = ["serde"] }
anyhow = "=1.0.104"
serde = { version = "=1.0.229", features = ["derive"] }
tokio = { version = "=1.53.2", features = ["rt-multi-thread", "macros"] }
reqwest = { version = "=0.11.27", default-features = false, features = ["json"] }
tui = "=0.19.0"
