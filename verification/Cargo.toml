[package]
name = "rgb_workspace"
version = "0.1.0"
edition = "2021"
publish = false

[dependencies]
alacritty_terminal = "0.24"
anyhow = "1"
clap = { version = "4", features = ["derive"] }
config = { version = "0.14", default-features = false, features = ["toml"] }
crossterm = "0.28"
directories = "5"
dirs = "5"
git2 = { version = "0.19", default-features = false }
notify = "6"
parking_lot = "0.12"
ratatui = "0.29"
serde = { version = "1", features = ["derive"] }
tokio = { version = "1", features = ["rt-multi-thread", "macros", "time", "sync", "fs"] }
toml = "0.8"
tracing = "0.1"
tracing-subscriber = { version = "0.3", features = ["env-filter"] }
uuid = { version = "1", features = ["v4"] }
