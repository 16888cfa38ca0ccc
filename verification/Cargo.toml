[package]
name = "depctl"
version = "0.1.0"
edition = "2021"
publish = false

[dependencies]
anyhow = "1"
bzip2 = "0.4"
clap = { version = "4", features = ["derive"] }
env_logger = "0.11"
indicatif = "0.17"
pathdiff = "0.2"
reqwest = { version = "0.12", default-features = false, features = ["blocking", "rustls-tls"] }
serde = { version = "1", features = ["derive"] }
serde_json = "1"
sha1 = "0.10"
tar = "0.4"
zip = { version = "2", default-features = false, features = ["deflate"] }
