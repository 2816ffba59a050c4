[package]
name = "audst"
version = "0.1.0"
edition = "2021"
publish = false

[dependencies]
clap = { version = "*", features = ["derive"] }
dialoguer = "*"
tokio = { version = "*", features = ["rt-multi-thread", "macros", "time", "signal", "sync"] }
