[package]
name = "native_notify"
version = "0.1.0"
edition = "2021"
publish = false

[dependencies]
ammonia = "*"
dashmap = "*"
pulldown-cmark = "*"
rand = "*"
regex = "*"
reqwest = { version = "*", default-features = false }
tempfile = "*"
tokio = { version = "*", features = ["rt-multi-thread", "sync", "time", "macros", "fs"] }
url = "*"
uuid = { version = "*", features = ["v4"] }
zbus = "*"
