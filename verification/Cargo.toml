[package]
name = "ratatuni"
version = "0.1.0"
edition = "2021"
publish = false

[dependencies]
anyhow = "1"
arboard = { version = "3", default-features = false }
crossterm = "0.27"
homedir = "0.2"
id3 = { version = "1", default-features = false }
ratatui = "0.26"
reqwest = { version = "0.11", default-features = false }
rusty_ytdl = { version = "0.7", default-features = false }
sqlite = "0.32"
tokio = { version = "1", features = ["macros", "rt-multi-thread"] }
