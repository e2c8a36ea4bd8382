[package]
name = "display_switch"
version = "1.0.0"
edition = "2021"
publish = false

[dependencies]
anyhow = "1"
config = "0.11"
dirs = "*"
log = "0.4"
serde = { version = "1", features = ["derive"] }
simplelog = "*"
