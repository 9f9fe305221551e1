[package]
name = "phase"
version = "0.1.0"
edition = "2021"
publish = false

[dependencies]
anyhow = "=1.0.104"
clap = { version = "=4.6.7", features = ["derive"] }
crossbeam-queue = "=0.3.14"
crossterm = "=0.29.0"
ctrlc = "=3.5.2"
directories = "=6.0.0"
midir = "=0.11.1"
ratatui = "=0.30.2"
serde = { version = "=1.0.229", features = ["derive"] }
toml = "=1.1.8"
