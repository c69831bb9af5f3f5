[package]
name = "future_work"
version = "0.1.0"
edition = "2021"
publish = false

[dependencies]
md5 = "0.7"
serde = { version = "1", features = ["derive"] }
serde_json = "1"
anyhow = "1"
async-channel = "2"
tokio = { version = "1", features = ["rt-multi-thread", "macros", "net", "io-util", "sync", "process"] }
zbus = "5"
gtk4 = { version = "0.9", features = ["v4_12"] }
glib = "0.20"
sourceview5 = "0.9"
gtk4-layer-shell = "0.4"
