[package]
name = "milcheck"
version = "0.3.0"
edition = "2021"
publish = false

[dependencies]
clap = { version = "4", features = ["derive"] }
html2text = "0.2"
reqwest = { version = "0.11", features = ["blocking"] }
scraper = "0.13"
serde = { version = "1", features = ["derive"] }
serde_json = "1"
termion = "2"
