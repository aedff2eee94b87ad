[package]
name = "code_market"
version = "0.1.0"
edition = "2021"
publish = false

[dependencies]
uuid = { version = "*", features = ["v4"] }
chrono = "*"
serde = { version = "*", features = ["derive"] }
actix-web = { version = "*", default-features = false, features = ["macros"] }
tokio = { version = "*", features = ["rt-multi-thread", "macros"] }
dotenv = "*"
