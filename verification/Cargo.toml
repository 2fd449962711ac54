[package]
name = "epub_audio"
version = "0.1.0"
edition = "2021"
publish = false

[dependencies]
epub = "=2.1.5"
scraper = "=0.27.0"
xml = "=1.4.0"

[dev-dependencies]
zip = "=8.6.0"
