[package]
name = "autolon"
version = "0.1.0"
edition = "2021"
publish = false

[dependencies]
anyhow = "=1.0.104"
clap = { version = "=4.6.7", features = ["derive"] }
serde = { version = "=1.0.229", features = ["derive"] }
serde_json = "=1.0.154"
toml = "=1.1.8"
dirs = "=7.0.0"
libc = "=0.2.191"
zbus = "=5.19.0"
tokio = { version = "=1.54.1", features = ["full"] }
futures-util = "=0.3.34"
ashpd = { version = "=0.13.13", features = ["global_shortcuts"] }
ksni = "=0.3.7"
smithay-client-toolkit = { version = "=0.21.1", default-features = false }
wayland-client = "=0.31.15"
gtk4 = "=0.11.5"
