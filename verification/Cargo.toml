[package]
name = "rustychain"
version = "0.1.0"
edition = "2021"
publish = false

[dependencies]
url = "=2.5.8"
urlencoding = "=2.1.3"
hex = "=0.4.3"
base64 = "=0.22.1"
sha2 = "=0.10.9"
fastrand = "=2.5.0"
serde = { version = "=1.0.229", features = ["derive"] }
serde_json = "=1.0.154"
thiserror = "=2.0.21"
scraper = "=0.29.0"
aes-gcm = "=0.10.3"
argon2 = "=0.5.3"
rand = "=0.9.5"
chrono = "=0.4.45"
chrono-tz = "=0.10.4"
tokio = { version = "=1.54.1", features = ["full"] }
reqwest = { version = "=0.12.28", default-features = false, features = ["rustls-tls", "json"] }
meval = "=0.2.0"
gemini-rust = "=2.1.0"
openai-api-rs = "=10.0.2"
ollama-rs = { version = "=0.3.6", features = ["stream"] }
trust-dns-resolver = "=0.23.2"
lettre = "=0.11.23"
futures-util = "=0.3.34"
