[package]
name = "polymath"
version = "0.1.0"
edition = "2021"
publish = false

[dependencies]
regex-lite = "*"
robotstxt = "*"
url = "*"
scraper = "*"
ureq = { version = "*", default-features = false }
