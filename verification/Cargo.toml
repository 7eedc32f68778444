[package]
name = "scout_gps"
version = "0.1.0"
edition = "2021"
publish = false

[dependencies]
nmea = "*"
chrono = "0.4"
serialport = { version = "4", default-features = false }
serde = { version = "1", features = ["derive"] }
serde_json = "1"
thiserror = "*"
log = "0.4"
env_logger = "*"
