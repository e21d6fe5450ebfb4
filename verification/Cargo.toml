[package]
name = "game_of_life"
version = "0.1.0"
edition = "2021"
publish = false

[dependencies]
calloop = "=0.14.5"
calloop-wayland-source = "=0.4.1"
memmap2 = "=0.9.12"
smithay-client-toolkit = { version = "0.20", default-features = false, features = ["calloop"] }
tempfile = "=3.27.0"
wayland-client = "=0.31.15"
wayland-protocols = { version = "=0.32.13", features = ["client"] }
xkbcommon = { version = "=0.9.0", features = ["wayland"] }

[dev-dependencies]
xkeysym = "=0.2.1"
