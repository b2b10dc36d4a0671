[package]
name = "ulm"
version = "0.1.0"
edition = "2021"
publish = false

[dependencies]
anyhow = "*"
arboard = "*"
blake3 = "*"
clap = { version = "*", features = ["derive"] }
crossterm = "*"
directories = "*"
indicatif = "*"
ratatui = "*"
reqwest = { version = "*", default-features = false, features = ["json"] }
rusqlite = { version = "*", features = ["bundled"] }
rustyline = "*"
serde = { version = "*", features = ["derive"] }
serde_json = "*"
sqlite-vec = "*"
sysinfo = "*"
tokio = { version = "*", features = ["rt-multi-thread", "macros", "time"] }
toml = "*"
tracing = "*"
tracing-subscriber = { version = "*", features = ["env-filter"] }
zerocopy = "*"
