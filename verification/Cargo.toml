[package]
name = "dioxus_sdk"
version = "0.1.0"
edition = "2021"
publish = false

[dependencies]
yazi = "*"
unic-langid = "0.9"
postcard = { version = "1", features = ["alloc"] }
serde = { version = "1", features = ["derive"] }
serde_json = "1"
dioxus = { version = "0.5", default-features = false, features = ["hooks", "signals", "macro"] }
tokio = { version = "1", features = ["sync", "time"] }
notify = "6"
directories = "5"
copypasta = "0.10"
notify-rust = "4"
uuid = { version = "1", features = ["v4"] }
async-broadcast = "0.7"
futures = "0.3"
futures-util = "0.3"
log = "0.4"
once_cell = "1"
cfg-if = "1"
