[package]
name = "tukituki"
version = "0.1.0"
edition = "2021"
publish = false

[dependencies]
ansi-to-tui = "7"
chrono = "0.4"
crossterm = "0.28"
hyper-util = { version = "0.1", features = ["tokio"] }
nix = { version = "0.29", features = ["resource"] }
ratatui = "0.29"
shell-words = "1"
tokio = { version = "1", features = ["rt", "net", "time"] }
tonic = "0.12"
tower = { version = "0.5", features = ["util"] }
