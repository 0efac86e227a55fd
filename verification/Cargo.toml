[package]
name = "tradergrader"
version = "0.1.0"
edition = "2021"
publish = false

[dependencies]
moka = { version = "*", default-features = false, features = ["sync"] }
chrono = "*"
governor = "*"
reqwest = { version = "*", default-features = false, features = ["json"] }
tokio = { version = "*", features = ["rt-multi-thread", "macros", "time"] }
serde = { version = "*", features = ["derive"] }
serde_json = "*"
anyhow = "*"
