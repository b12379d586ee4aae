[package]
name = "dockeye"
version = "0.1.0"
edition = "2021"
publish = false

[dependencies]
strip-ansi-escapes = "=0.1.1"
ropey = "=1.6.1"
anyhow = "=1.0.104"
bytes = "=1.12.1"
chrono = "=0.4.45"
dirs = "=4.0.0"
docker-api = { version = "0.14", default-features = false, features = ["chrono"] }
eframe = { version = "0.29", default-features = false, features = ["default_fonts", "glow", "x11"] }
egui = "0.29"
futures = "=0.3.34"
http = "=0.2.12"
log = "=0.4.35"
pretty_env_logger = "=0.4.0"
serde = { version = "=1.0.229", features = ["derive"] }
serde_yaml = "=0.8.26"
tokio = { version = "=1.54.1", features = ["rt-multi-thread", "sync", "time", "macros"] }
