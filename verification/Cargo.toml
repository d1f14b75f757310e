[package]
name = "vertix"
version = "0.1.0"
edition = "2021"
publish = false

[dependencies]
urlencoding = "=2.1.3"
chrono = "=0.4.45"
serde = { version = "1", features = ["derive"] }
serde_json = "1"
url = "2"
futures = "0.3"
lapin = "=2.5.5"
reqwest = { version = "=0.12.28", default-features = false, features = ["json", "rustls-tls"] }
