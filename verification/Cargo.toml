[package]
name = "apify_crawler"
version = "0.1.0"
edition = "2021"
publish = false

[dependencies]
reqwest = { version = "0.11", default-features = false, features = ["rustls-tls"] }
tokio = { version = "1", features = ["macros", "rt-multi-thread"] }
futures = "0.3"
async-std = "1"
serde = { version = "1", features = ["derive"] }
serde_json = "1"
