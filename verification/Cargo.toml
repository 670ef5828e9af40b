[package]
name = "rust_rag_cli"
version = "0.1.0"
edition = "2021"
publish = false

[dependencies]
arboard = { version = "3", default-features = false }
clap = { version = "4", features = ["derive"] }
crossterm = "0.28"
dirs = "5"
futures-util = "0.3"
keyring = "3"
lazy_static = "1"
notify = "6"
notify-debouncer-mini = "0.4"
once_cell = "1"
parking_lot = "0.12"
ratatui = "0.28"
reqwest = { version = "0.11", default-features = false, features = ["json", "stream"] }
serde = { version = "1", features = ["derive"] }
serde_json = "1"
syntect = { version = "5", default-features = false, features = ["default-fancy"] }
tokio = { version = "1", features = ["full"] }
toml = "0.8"
tracing = "0.1"
tracing-subscriber = { version = "0.3", features = ["env-filter"] }
