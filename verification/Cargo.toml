[package]
name = "phantom_core"
version = "0.1.0"
edition = "2021"
publish = false

[dependencies]
anyhow = "1"
base64 = "0.22"
cpal = "0.15"
dotenvy = "0.15"
reqwest = { version = "0.12", features = ["json", "multipart"] }
serde = { version = "1", features = ["derive"] }

[dev-dependencies]
hound = "3.5"
