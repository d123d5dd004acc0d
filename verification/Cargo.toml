[package]
name = "order_relay"
version = "0.1.0"
edition = "2021"
publish = false

[dependencies]
hmac = "*"
sha2 = "*"
hex = "*"
serde_json = "*"
chrono = "*"
actix-web = { version = "*", default-features = false }
reqwest = { version = "*", default-features = false }
dotenv = "*"
