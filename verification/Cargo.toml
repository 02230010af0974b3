[package]
name = "feed_enricher"
version = "0.1.0"
edition = "2021"
publish = false

[dependencies]
base64 = "*"
console_error_panic_hook = "*"
futures = "*"
hex = "*"
hmac = "*"
markdown = "*"
reqwest = { version = "*", default-features = false, features = ["json"] }
serde = { version = "*", features = ["derive"] }
serde_json = "*"
sha2 = "*"
worker = "*"
