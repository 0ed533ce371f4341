[package]
name = "pdf_chat"
version = "0.1.0"
edition = "2021"
publish = false

[dependencies]
anyhow = "*"
async-trait = "*"
axum = { version = "*", features = ["multipart"] }
base64 = "*"
bytes = "*"
chrono = "*"
moka = { version = "*", features = ["sync", "future"] }
reqwest = { version = "*", default-features = false, features = ["json"] }
serde = { version = "*", features = ["derive"] }
serde_json = "*"
sqlx = { version = "*", default-features = false, features = ["runtime-tokio", "sqlite", "macros"] }
thiserror = "*"
tokio = { version = "*", features = ["macros", "rt-multi-thread", "fs", "io-util", "net", "time"] }
tower-http = { version = "*", features = ["cors"] }
uuid = { version = "*", features = ["v4"] }
