[package]
name = "bettertouchscreen"
version = "0.1.0"
edition = "2021"
publish = false

[dependencies]
anyhow = "1"
chrono = "0.4"
clap = { version = "4", features = ["derive"] }
dirs = "*"
evdev = "0.13"
fern = { version = "0.7", features = ["colored"] }
libc = "0.2"
log = "0.4"
memmap2 = "0.9"
serde = { version = "1", features = ["derive"] }
tempfile = "3"
toml = "*"
wayland-client = "0.31"
wayland-protocols-wlr = { version = "0.3", features = ["client"] }
