[package]
name = "corrodedbar"
version = "0.1.0"
edition = "2021"
publish = false

[dependencies]
argp = "*"
chrono = "*"
dbus = "*"
itertools = "*"
libc = "*"
networkmanager = "*"
pulsectl-rs = "*"
serde = { version = "1", features = ["derive"] }
signal-hook = "*"
toml = "*"
x11 = { version = "*", features = ["xlib"] }
