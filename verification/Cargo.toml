[package]
name = "tic_tac_toe_rs"
version = "0.1.0"
edition = "2021"
publish = false

[dependencies]
clap = { version = "*", features = ["derive"] }
clap_complete = "*"
crossterm = "*"

[dev-dependencies]
serde_json = "*"
