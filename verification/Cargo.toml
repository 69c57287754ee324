[package]
name = "relintio_agent"
version = "0.1.2"
edition = "2021"
publish = false

[dependencies]
actix-web = { version = "4", default-features = false, features = ["cookies", "macros"] }
axum = "0.6"
base64 = "0.22"
cookie = "0.18"
futures-util = "0.3"
hex = "0.4"
hmac = "0.12"
md5 = "0.7"
percent-encoding = "2"
regex = "1"
reqwest = { version = "0.11", default-features = false, features = ["json", "rustls-tls"] }
serde = { version = "1", features = ["derive"] }
serde_json = "1"
sha2 = "0.10"
tokio = { version = "1", features = ["macros", "rt-multi-thread", "time"] }
