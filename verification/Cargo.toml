[package]
name = "borsa_alphavantage"
version = "0.1.0"
edition = "2021"
publish = false

[dependencies]
alpha_vantage = "=0.11.0"
chrono = "=0.4.45"
chrono-tz = "=0.10.4"
reqwest = { version = "=0.12.28", default-features = false }
