[package]
name = "bingo_simulator"
version = "0.1.0"
edition = "2021"
publish = false

[dependencies]
rand = "0.9"
rayon = "1"
indicatif = "0.17"
serde = { version = "1", features = ["derive"] }
serde_json = "1"
plotters = "0.3"
anyhow = "1"
csv = "1"
google-sheets4 = "5"
tokio = { version = "1", features = ["rt-multi-thread", "macros"] }
