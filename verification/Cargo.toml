[package]
name = "timetrackrs"
version = "0.1.0"
edition = "2021"
publish = false

[dependencies]
anyhow = "=1.0.104"
byteorder = "=1.5.0"
chrono = { version = "=0.4.45", features = ["serde"] }
hex = "=0.4.3"
rustc-hash = "=2.1.3"
serde = { version = "=1.0.229", features = ["derive"] }
serde_json = "=1.0.154"
sysinfo = "=0.39.6"
x11rb = { version = "=0.14.0", features = ["screensaver"] }

[dev-dependencies]
regex = "=1.13.1"
