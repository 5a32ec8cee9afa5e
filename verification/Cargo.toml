[package]
name = "server_low_level"
version = "0.1.0"
edition = "2021"
publish = false

[dependencies]
ahash = "0.8"
bincode = "1"
dotenv = "0.15"
futures-util = "0.3"
serde = { version = "1", features = ["derive"] }
serde_json = "1"
sqlx = { version = "0.7", default-features = false, features = ["runtime-tokio", "postgres"] }
tokio = { version = "1", features = ["full"] }
ts-rs = "*"
