[package]
name = "redditbg"
version = "0.1.0"
edition = "2021"
publish = false

[dependencies]
serde_json = "*"
scraper = "*"
image = "*"
base64 = "*"
exponential-backoff = "*"
reqwest = { version = "*", default-features = false, features = ["blocking"] }
directories = "*"
image_hasher = "*"
tempfile = "*"
eyre = "*"
