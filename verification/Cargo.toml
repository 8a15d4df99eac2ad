[package]
name = "cctiles"
version = "0.1.0"
edition = "2021"
publish = false

[dependencies]
anyhow = "=1.0.104"
crossterm = "=0.29.0"
directories = "=6.0.0"
notify = "=8.2.1"
portable-pty = "=0.9.0"
ratatui = "=0.30.2"
serde = { version = "=1.0.229", features = ["derive"] }
serde_json = "=1.0.154"
tiny_http = "=0.12.0"
toml = "=1.1.8"
vt100 = "=0.16.2"
