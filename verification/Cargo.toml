[package]
name = "hiwatch_sync"
version = "0.1.0"
edition = "2021"
publish = false

[dependencies]
uuid = { version = "=1.27.0", features = ["v4"] }
chrono = { version = "=0.4.45", features = ["serde"] }
reqwest = { version = "*", features = ["stream"] }
diqwest = "*"
tokio = { version = "*", features = ["full"] }
futures-util = "*"
sqlx = { version = "*", default-features = false, features = ["runtime-tokio", "sqlite", "macros"] }
serde = { version = "*", features = ["derive"] }
serde-xml-rs = "*"
dotenvy = "*"
anyhow = "*"
