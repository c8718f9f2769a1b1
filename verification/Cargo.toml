[package]
name = "rataflow"
version = "0.1.0"
edition = "2021"
publish = false

[dependencies]
ratatui = "0.29"
rust-sugiyama = "*"
serde = { version = "1", features = ["derive"] }
thiserror = "2"
