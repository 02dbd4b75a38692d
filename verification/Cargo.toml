[package]
name = "okx_pa_agent"
version = "0.5.0"
edition = "2021"
publish = false

[dependencies]
anyhow = "=1.0.104"
base64 = "=0.22.1"
chrono = "=0.4.45"
dotenvy = "=0.15.7"
hex = "=0.4.3"
hmac = "=0.12.1"
regex = "=1.13.1"
rust_decimal = "1"
serde = { version = "=1.0.229", features = ["derive"] }
serde_json = "=1.0.154"
sha2 = "=0.10.9"
urlencoding = "=2.1.3"
uuid = { version = "=1.29.0", features = ["v4"] }
