[package]
name = "atk_tray_monitor"
version = "0.1.0"
edition = "2021"
publish = false

[dependencies]
arboard = { version = "3", default-features = false }
hidapi = "2"
libatk-rs = "=0.1.10"
serde = { version = "1", features = ["derive"] }
serde_json = "1"
