[package]
name = "flying_fish"
version = "0.1.0"
edition = "2021"
publish = false

[dependencies]
arrayvec = "0.7"
thiserror = "1"
tabled = "0.15"
anyhow = "1"
clap = { version = "4", features = ["derive"] }
tracing = "0.1"
tracing-subscriber = "0.3"
