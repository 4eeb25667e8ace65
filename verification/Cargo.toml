[package]
name = "mandwm"
version = "0.1.0"
edition = "2021"
publish = false

[dependencies]
tokio = { version = "1", features = ["rt-multi-thread", "macros", "time"] }
x11 = { version = "2", features = ["xlib"] }
dbus = "0.8"
