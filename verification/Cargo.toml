[package]
name = "adamoq"
version = "0.1.0"
edition = "2021"
publish = false

[dependencies]
anyhow = "1"
axum = "0.8"
bytes = "1"
clap = { version = "4", features = ["derive"] }
conducer = "*"
tokio = { version = "1", features = ["macros", "rt", "sync", "time"] }
tracing = "0.1"
web-async = "*"
web-transport-trait = "*"
