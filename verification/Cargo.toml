[package]
name = "user_auth"
version = "0.1.0"
edition = "2021"
publish = false

[dependencies]
bcrypt = "*"
jwt-simple = { version = "*", default-features = false, features = ["pure-rust"] }
chrono = "*"
serde = { version = "*", features = ["derive"] }
actix-web = { version = "*", default-features = false, features = ["macros"] }
actix-web-httpauth = "*"
