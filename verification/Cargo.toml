[package]
name = "logicshell"
version = "0.1.0"
edition = "2021"
publish = false

[dependencies]
regex = "=1.13.1"
toml = { version = "=0.8.23", features = ["preserve_order"] }
serde = { version = "=1.0.229", features = ["derive"] }
serde_json = "=1.0.154"
tokio = { version = "=1.54.1", features = ["rt-multi-thread", "macros", "process", "io-util", "time", "sync"] }
reqwest = { version = "=0.12.28", default-features = false, features = ["json"] }
crossterm = "=0.28.1"
ratatui = "=0.29.0"
thiserror = "=1.0.69"
