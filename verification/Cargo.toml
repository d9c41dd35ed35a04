[package]
name = "scavnet"
version = "0.1.0"
edition = "2021"
publish = false

[dependencies]
rand = "0.8"
quanta = "0.12"
chrono = "0.4"
config = { version = "0.14", default-features = false, features = ["toml"] }
serde = { version = "1", features = ["derive"] }
serde_yaml = "0.9"
tokio = { version = "1", features = ["rt-multi-thread", "macros", "sync", "time"] }
crossterm = "0.28"
ratatui = "0.29"
rodio = { version = "0.20", default-features = false, features = ["wav", "noise"] }
cpal = "0.15"
hound = "3.5"
spectrum-analyzer = "1"
rayon = "1"
rmp-serde = "1"
uuid = { version = "1", features = ["v4"] }
openai_api_rust = "0.1"
openai_dive = "*"
