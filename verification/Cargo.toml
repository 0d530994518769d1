[package]
name = "voicepipe"
version = "0.1.0"
edition = "2021"
publish = false

[dependencies]
serde_json = "1"
serde = { version = "1", features = ["derive"] }
reqwest = { version = "0.11", default-features = false, features = ["json", "multipart"] }
tokio = { version = "1", features = ["rt-multi-thread"] }
cpal = "0.15"
rodio = "0.17"
hound = "3.5"
dotenv = "0.15"
