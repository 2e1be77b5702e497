[package]
name = "atvvoice"
version = "0.1.0"
edition = "2021"
publish = false

[dependencies]
anyhow = "=1.0.104"
bluer = { version = "=0.17.4", features = ["bluetoothd"] }
clap = { version = "=4.6.7", features = ["derive"] }
# Builds libdbus from source, so that bluer needs no system library.
dbus = { version = "=0.9.12", features = ["vendored"] }
futures = "=0.3.34"
pipewire = { version = "=0.9.2", features = ["v0_3_49"] }
tokio = { version = "=1.54.1", features = ["macros", "rt-multi-thread", "signal", "sync", "time"] }
tracing = "=0.1.44"
tracing-subscriber = { version = "=0.3.23", features = ["env-filter"] }
zbus = { version = "=5.19.0", default-features = false, features = ["tokio"] }
