[package]
name = "keepsmile-lamp"
version = "0.1.0"
edition = "2021"
publish = false

[dependencies]
anyhow = "1"
clap = { version = "4", features = ["derive"] }
dbus = { version = "0.9", features = ["vendored"] }
