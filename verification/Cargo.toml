[package]
name = "maimai_scraping"
version = "0.1.0"
edition = "2021"
publish = false

[dependencies]
anyhow = "1"
chrono = "0.4"
scraper = "*"
serde = { version = "1", features = ["derive"] }
serde_json = "1"
url = "2"
