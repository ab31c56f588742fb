[package]
name = "auth_core"
version = "0.1.0"
edition = "2021"
publish = false

[dependencies]
jsonwebtoken = { version = "=11.1.0", default-features = false, features = ["rust_crypto"] }
serde_json = "=1.0.151"
argon2 = "=0.6.0"
chrono = "=0.4.45"
uuid = { version = "=1.27.0", features = ["v4"] }
validator = "=0.21.0"
redis = "=1.7.1"
