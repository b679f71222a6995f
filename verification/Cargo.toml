[package]
name = "marty"
version = "0.1.0"
edition = "2021"
publish = false

[dependencies]
chrono = "0.4"
clap = { version = "4", features = ["derive"] }
colored = "2"
comfy-table = "7"
config = { version = "0.14", default-features = false, features = ["toml"] }
crossterm = "0.28"
dirs = "5"
lazy_static = "1"
parking_lot = "0.12"
prometheus = { version = "0.13", default-features = false }
ratatui = "0.29"
rustyline = "14"
serde = { version = "1", features = ["derive"] }
serde_json = "1"
thiserror = "1"
tokio = { version = "1", features = ["full"] }
tracing = "0.1"
tracing-appender = "0.2"
tracing-subscriber = "0.3"
warp = { version = "0.3", default-features = false }
