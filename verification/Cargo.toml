[package]
name = "gsqlite"
version = "0.1.0"
edition = "2021"
publish = false

[dependencies]
chrono = "0.4"
oauth2 = { version = "4", default-features = false }
open = "5"
reqwest = { version = "0.11", default-features = false, features = ["blocking"] }
serde = { version = "1", features = ["derive"] }
serde_json = "1"
