[package]
name = "user_api"
version = "0.1.0"
edition = "2021"
publish = false

[dependencies]
hex = "*"
rust-argon2 = "*"
rand = "*"
uuid = { version = "*", features = ["v4"] }
serde = { version = "*", features = ["derive"] }
serde_json = "*"
chrono = "*"
actix-web = "*"
actix-session = { version = "*", features = ["cookie-session"] }
