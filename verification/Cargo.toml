[package]
name = "power-profiles-cfg"
version = "0.1.0"
edition = "2021"
publish = false

[dependencies]
clap = { version = "4", features = ["derive"] }
dbus = "0.9"
num_cpus = "1"
ron = "0.8"
serde = { version = "1", features = ["derive"] }
