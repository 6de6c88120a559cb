[package]
name = "rust_webapp"
version = "0.1.0"
edition = "2021"
publish = false

[dependencies]
uuid = { version = "*", features = ["v4"] }
tokio = { version = "*", features = ["rt-multi-thread", "macros", "sync"] }
sqlx = { version = "*", features = ["sqlite", "runtime-tokio"] }
mongodb = "*"
serde = { version = "*", features = ["derive"] }
async-trait = "*"
futures-util = "*"
actix-web = "*"
actix-cors = "*"
