[package]
name = "nit_widgets"
version = "0.1.0"
edition = "2021"
publish = false

[dependencies]
ratatui = { version = "0.29", default-features = false }
serde = { version = "1", features = ["derive"] }
serde_json = "1"
time = "0.3"
tracing = "0.1"
unicode-width = "0.2"
