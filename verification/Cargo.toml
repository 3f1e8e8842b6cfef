[package]
name = "spotter"
version = "0.1.0"
edition = "2021"
publish = false

[dependencies]
anyhow = "1"
async-channel = "2"
dirs = "5"
gtk4 = { version = "0.9", features = ["v4_10"] }
ksni = { version = "0.3", features = ["blocking"] }
open = "5"
rayon = "1"
serde = { version = "1", features = ["derive"] }
serde_json = "1"
toml = "0.8"
ureq = { version = "2", features = ["json"] }
walkdir = "2"
