[package]
name = "betalky"
version = "0.1.0"
edition = "2021"
publish = false

[dependencies]
argon2 = { version = "=0.5.3", features = ["std"] }
dotenv = "=0.15.0"
jsonwebtoken = "=9.3.1"
rocket = { version = "=0.5.2", features = ["json"] }
serde = { version = "=1.0.229", features = ["derive"] }
serde_json = "=1.0.154"
tokio-postgres = { version = "=0.7.18", features = ["with-uuid-1", "with-serde_json-1"] }
totp-rs = { version = "=5.7.2", features = ["qr", "gen_secret", "otpauth"] }
uuid = { version = "=1.29.0", features = ["v4"] }
