[package]
name = "swaperooni"
version = "0.1.0"
edition = "2021"
publish = false

[dependencies]
anyhow = "1"
clap = { version = "4", features = ["derive", "env"] }
signal-hook = "0.3"
thiserror = "1"
tokio = { version = "1", features = ["full"] }
