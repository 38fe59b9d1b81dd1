[package]
name = "isuconquest"
version = "0.1.0"
edition = "2021"
publish = false

[dependencies]
bcrypt = "*"
chrono = "0.4"
rand = "0.8"
uuid = { version = "1", features = ["v4"] }
