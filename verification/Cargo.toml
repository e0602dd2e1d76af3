[package]
name = "voice_core"
version = "0.1.0"
edition = "2021"
publish = false

[dependencies]
serde_json = "1"
cpal = "*"
reqwest = { version = "*", default-features = false, features = ["blocking", "multipart"] }

[dev-dependencies]
hound = "*"
