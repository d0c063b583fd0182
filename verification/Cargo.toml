[package]
name = "sieve"
version = "0.1.0"
edition = "2021"
publish = false

[dependencies]
ahash = "=0.8.12"
mail-parser = "=0.7.0"
serde = { version = "=1.0.229", features = ["derive"] }
