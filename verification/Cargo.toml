[package]
name = "roster_messenger"
version = "0.1.0"
edition = "2021"
publish = false

[dependencies]
scraper = "*"
ureq = { version = "2", features = ["json", "cookies"] }
serde = { version = "*", features = ["derive"] }
serde_json = "*"
config = "*"
