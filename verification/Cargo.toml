[package]
name = "multiyt_dlp"
version = "0.1.0"
edition = "2021"
publish = false

[dependencies]
url = "2"
regex = "1"
serde_json = "1"
serde = { version = "1", features = ["derive"] }
uuid = { version = "1", features = ["v4", "serde"] }
tokio = { version = "1", features = ["full"] }
reqwest = { version = "0.11", default-features = false, features = ["stream", "json", "rustls-tls"] }
futures-util = "0.3"
dirs = "5"
walkdir = "2"
zip = { version = "0.6", default-features = false, features = ["deflate"] }
chrono = "0.4"
nix = { version = "0.27", features = ["signal"] }
