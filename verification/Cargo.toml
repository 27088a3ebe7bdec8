[package]
name = "docflow"
version = "0.1.0"
edition = "2021"
publish = false

[dependencies]
notify = "*"
quick-xml = { version = "*", features = ["serialize"] }
regex = "1"
reqwest = "0.12"
sanitize-filename = "*"
serde = { version = "1", features = ["derive"] }
serde_json = "1"
url = "2"
uuid = { version = "1", features = ["v4"] }
walkdir = "2"
