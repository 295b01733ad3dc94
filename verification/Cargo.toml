[package]
name = "round_studio_launcher"
version = "0.1.0"
edition = "2021"
publish = false

[dependencies]
anyhow = "1"
log = "0.4"
once_cell = "1"
regex = "1"
reqwest = { version = "0.12", default-features = false, features = ["json", "rustls-tls"] }
serde = { version = "1", features = ["derive"] }
serde_json = "1"
sha1 = "0.10"
urlencoding = "2"
uuid = { version = "1", features = ["v4", "v5"] }
zip = { version = "2", default-features = false, features = ["deflate"] }
