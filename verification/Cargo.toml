[package]
name = "foxmayn_cowork"
version = "0.1.0"
edition = "2021"
publish = false

[dependencies]
regex = "1"
serde = { version = "1", features = ["derive"] }
serde_json = "1"
tokio = { version = "1", features = ["rt-multi-thread", "macros", "sync", "fs", "time"] }
reqwest = { version = "0.12", default-features = false, features = ["json", "stream", "rustls-tls"] }
futures = "0.3"
clap = { version = "4", features = ["derive"] }
crossterm = { version = "0.28", features = ["event-stream"] }
ratatui = "0.29"
tui-textarea = "0.7"
chrono = "0.4"
dirs = "6"
dotenvy = "0.15"
rpassword = "7"
rusqlite = { version = "0.32", features = ["bundled"] }
pdf-extract = "0.7"
thiserror = "2"
