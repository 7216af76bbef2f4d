[package]
name = "autopilot"
version = "0.1.0"
edition = "2021"
publish = false

[dependencies]
regex = "=1.13.1"
serde = { version = "=1.0.229", features = ["derive"] }
serde_json = "=1.0.154"
tokio = { version = "=1.54.1", features = ["rt-multi-thread", "macros", "sync", "net", "io-util"] }
axum = "=0.8.9"
clap = { version = "=4.6.7", features = ["derive", "cargo"] }
chrono = "=0.4.45"
colored = "=2.2.0"
log = "=0.4.35"
walkdir = "=2.5.0"
crossterm = "*"
dialoguer = "*"
eframe = { version = "=0.37.0", default-features = false, features = ["glow", "x11", "default_fonts"] }
