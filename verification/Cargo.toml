[package]
name = "torvax"
version = "0.1.0"
edition = "2021"
publish = false

[dependencies]
anyhow = "=1.0.104"
async-openai = "0.28"
base64 = "=0.22.1"
clap = { version = "=4.6.7", features = ["derive"] }
crossterm = "0.28"
ctrlc = "=3.5.2"
ratatui = "0.29"
reqwest = { version = "=0.12.28", default-features = false, features = ["json", "rustls-tls"] }
rodio = "0.20"
serde = { version = "=1.0.229", features = ["derive"] }
serde_json = "=1.0.154"
tokio = { version = "=1.54.1", features = ["rt-multi-thread", "time"] }
unicode-width = "0.2"
