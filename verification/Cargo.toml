[package]
name = "mcserver"
version = "0.1.0"
edition = "2021"
publish = false

[dependencies]
dashmap = "*"
directories = "*"
open = "*"
rcon = { version = "*", features = ["rt-tokio"] }
reqwest = { version = "*", default-features = false }
serde = { version = "*", features = ["derive"] }
serde_json = "*"
tokio = { version = "*", features = ["rt-multi-thread", "time", "macros"] }
