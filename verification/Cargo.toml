[package]
name = "break_enforcer"
version = "0.1.0"
edition = "2021"
publish = false

[dependencies]
base64 = "*"
evdev = "*"
inotify = "*"
clap = { version = "*", features = ["derive"] }
serde = { version = "*", features = ["derive"] }
toml = "*"
ron = "*"
thiserror = "*"
color-eyre = "*"
tracing = "*"
tracing-subscriber = "*"
sudo = "*"
service-install = "*"
dialoguer = "*"
itertools = "*"
