[package]
name = "quick_api"
version = "0.1.0"
edition = "2021"
publish = false

[dependencies]
serde_json = "1.0"
reqwest = { version = "0.12", default-features = false, features = ["json"] }
thiserror = "1"
