[package]
name = "account_service"
version = "0.1.0"
edition = "2021"
publish = false

[dependencies]
bcrypt = "*"
mongodb = "*"
actix-web = "*"
serde = { version = "*", features = ["derive"] }
