[package]
name = "riced"
version = "0.1.0"
edition = "2021"
publish = false

[dependencies]
clap = { version = "=4.6.7", features = ["derive"] }
dirs = "=7.0.0"
iced = { version = "=0.14.0", default-features = false, features = ["canvas", "tokio"] }
iced_exwlshell = { version = "=0.20.1", default-features = false }
iced_runtime = { version = "=0.14.0", default-features = false }
iced_wayland_subscriber = { version = "=0.20.1", default-features = false }
image = { version = "=0.25.10", default-features = false, features = ["png", "jpeg"] }
serde = { version = "=1.0.229", features = ["derive"] }
toml = "=1.1.8"
tracing-subscriber = "=0.3.23"
wayland-client = "=0.31.15"
