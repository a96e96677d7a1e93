[package]
name = "okx_client"
version = "0.1.0"
edition = "2021"
publish = false

[dependencies]
serde_json = "1"
hmac = "0.12"
sha2 = "0.10"
base64 = "0.22"
chrono = "0.4"
dotenv = "0.15"
rust_decimal = "1"
reqwest = { version = "0.12", default-features = false, features = ["blocking"] }
