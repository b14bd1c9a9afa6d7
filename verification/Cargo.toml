[package]
name = "cloud_spanner"
version = "0.1.4"
edition = "2021"
publish = false

[dependencies]
pem = "3"
reqwest = { version = "0.12", default-features = false, features = ["json", "rustls-tls"] }
ring = "0.17"
serde = { version = "1", features = ["derive"] }
serde_json = "1"
tokio = { version = "1", features = ["rt-multi-thread"] }
