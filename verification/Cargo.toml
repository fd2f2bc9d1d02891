[package]
name = "news_extract"
version = "0.1.0"
edition = "2021"
publish = false

[dependencies]
scraper = "0.20"
reqwest = { version = "0.12", features = ["blocking"] }
serde = { version = "1", features = ["derive"] }
serde_json = "1"
pyo3 = { version = "0.22", features = ["extension-module"] }
