[package]
name = "cove_mail"
version = "0.1.0"
edition = "2021"
publish = false

[dependencies]
chrono = "=0.4.45"
chrono-tz = "=0.10.4"
regex = "=1.13.1"
uuid = { version = "=1.29.0", features = ["v4"] }
url = "=2.5.8"
mailparse = "=0.16.1"
ammonia = "=4.2.4"
base64 = "=0.22.1"
oauth2 = "=5.0.0"
reqwest = { version = "=0.12.28", default-features = false, features = ["rustls-tls", "json"] }
tokio = { version = "=1.54.1", features = ["rt-multi-thread", "macros", "time"] }
serde = { version = "=1.0.229", features = ["derive"] }
serde_json = "=1.0.154"
toml = "=0.8.23"
directories = "=6.0.0"
keyring = "=3.6.3"
ical = "=0.11.0"
scraper = "=0.29.0"
ego-tree = "=0.11.1"
