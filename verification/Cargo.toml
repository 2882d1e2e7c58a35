[package]
name = "stellarlib"
version = "0.1.0"
edition = "2021"
publish = false

[dependencies]
chrono = { version = "=0.4.45", default-features = false }
escape-bytes = "=0.1.1"
ethnum = "=1.5.3"
hex = "=0.4.3"
serde = "=1.0.229"
serde_json = "=1.0.154"
stellar-strkey = "=0.0.13"
ledger_device_sdk = "=1.42.0"
