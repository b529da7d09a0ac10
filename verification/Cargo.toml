[package]
name = "galaxy_player"
version = "0.1.0"
edition = "2021"
publish = false

[dependencies]
audiotags = "*"
discord-rich-presence = "0.2"
discord-sdk = "0.3"
mp3-duration = "0.1"
serde = { version = "1", features = ["derive"] }
tokio = { version = "1", features = ["rt", "sync"] }
