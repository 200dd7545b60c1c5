[package]
name = "session_tally"
version = "0.1.0"
edition = "2021"
publish = false

[dependencies]
anyhow = "1"
boxcars = "*"
clap = { version = "4", features = ["derive"] }
indoc = "2"
notify = "6"
tokio = { version = "1", features = ["rt", "macros"] }
webhook = "2"
whoami = "1"
