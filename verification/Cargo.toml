[package]
name = "bluez_peripheral"
version = "0.1.0"
edition = "2021"
publish = false

[dependencies]
bytes = "=1.12.1"
dbus = { version = "=0.9.12", features = ["vendored"] }
