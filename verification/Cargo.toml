[package]
name = "bulk_sms_api"
version = "0.1.0"
edition = "2021"
publish = false

[dependencies]
jsonwebtoken = { version = "=11.1.0", features = ["rust_crypto"] }
rust-argon2 = "=3.0.0"
rand = "=0.10.3"
serde = { version = "*", features = ["derive"] }
actix-web = "*"
actix-web-validator = "*"
chrono = { version = "*", features = ["serde"] }
dotenvy = "*"
log = "*"
log4rs = "*"
validator = { version = "*", features = ["derive"] }
once_cell = "*"
regex = "*"
sqlx = { version = "*", features = ["postgres", "runtime-tokio", "chrono"] }
