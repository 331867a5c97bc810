[package]
name = "librepods"
version = "0.1.0"
edition = "2021"
publish = false

[dependencies]
aes = "*"
bluer = { version = "*", features = ["bluetoothd"] }
dbus = { version = "0.9", features = ["vendored"] }
dbus-crossroads = "*"
futures = "0.3"
hex = "0.4"
ksni = "*"
log = "0.4"
serde = { version = "1", features = ["derive"] }
serde_json = "1"
tokio = { version = "1", features = ["macros", "process", "rt", "rt-multi-thread", "sync", "time"] }
