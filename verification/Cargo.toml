[package]
name = "iperf_rust"
version = "0.1.0"
edition = "2021"
publish = false

[dependencies]
gtk4 = { version = "0.9", features = ["v4_10"] }
libadwaita = { version = "0.7", features = ["v1_4"] }
glib = "0.20"
async-channel = "2"
libc = "0.2"
