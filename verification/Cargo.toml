[package]
name = "image_fetcher"
version = "0.1.0"
edition = "2021"
publish = false

[dependencies]
bincode = "1.3"
indicatif = "0.17"
rayon = "1"
reqwest = { version = "0.12", features = ["blocking"] }
serde = { version = "1", features = ["derive"] }
serde_json = "1"
