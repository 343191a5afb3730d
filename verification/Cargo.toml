[package]
name = "realworld"
version = "0.1.0"
edition = "2021"
publish = false

[dependencies]
chrono = { version = "0.4", default-features = false, features = ["clock", "std"] }
dotenv = "0.15"
jsonwebtoken = "7.2"
rand = "0.8"
rocket = { version = "0.5", features = ["json"] }
rocket_cors = "0.6"
rust-crypto = "0.2.36"
serde = { version = "1", features = ["derive"] }
serde_json = "1"
slug = "0.1"
validator = "0.16"
