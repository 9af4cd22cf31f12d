[package]
name = "wav-files-vad-api"
version = "0.1.0"
edition = "2021"
publish = false

[dependencies]
anyhow = "1"
clap = { version = "4", features = ["derive"] }
hound = "3"
rayon = "1"
serde = { version = "1", features = ["derive"] }
ureq = { version = "*", features = ["json"] }
walkdir = "2"
