[package]
name = "plant-bot"
version = "0.1.0"
edition = "2021"
publish = false

[dependencies]
chrono = "0.4"
dotenv = "0.15"
hex = "0.4"
md5 = "0.7"
open-meteo-api = "*"
pbkdf2 = { version = "0.12", features = ["hmac"] }
quick-xml = { version = "*", features = ["serialize"] }
reqwest = { version = "0.12", default-features = false, features = ["blocking", "rustls-tls"] }
serde = { version = "1", features = ["derive"] }
sha2 = "0.10"
tokio = { version = "1", features = ["rt-multi-thread"] }
uom = "*"
