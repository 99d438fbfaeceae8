[package]
name = "dash2gps"
version = "0.1.0"
edition = "2021"
publish = false

[dependencies]
anyhow = "*"
chrono = "*"
clap = { version = "*", features = ["derive"] }
crossbeam-channel = "*"
futures-util = "*"
image = "*"
notify = "*"
once_cell = "*"
regex = "*"
tesseract = "*"
tokio = { version = "*", features = ["rt-multi-thread", "macros"] }
