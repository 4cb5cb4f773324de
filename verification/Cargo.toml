[package]
name = "vitamin"
version = "0.1.0"
edition = "2021"
publish = false

[dependencies]
crossbeam-channel = "=0.5.17"
uuid = { version = "=1.29.0", features = ["v4"] }
anyhow = "=1.0.104"
clap = { version = "=4.6.7", features = ["derive"] }
eframe = { version = "=0.22.0", default-features = false, features = ["glow", "default_fonts"] }
egui = "=0.22.0"
tracing = "=0.1.44"
tracing-subscriber = { version = "=0.3.23", default-features = false, features = ["fmt", "std"] }
