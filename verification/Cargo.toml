[package]
name = "midisynth"
version = "0.1.0"
edition = "2021"
publish = false

[dependencies]
slotmap = "1"
anyhow = "1"
cpal = "0.13"
midir = "*"
serde = { version = "1", features = ["derive"] }
structopt = "0.3"
toml = "*"
