[package]
name = "phux_server"
version = "0.1.0"
edition = "2021"
publish = false

[dependencies]
bytes = "1"
chrono = { version = "0.4", default-features = false, features = ["std", "clock"] }
memchr = "2"
nix = { version = "0.29", features = ["feature", "fs", "process", "signal", "term", "user"] }
serde_json = "1"
sha2 = "0.10"
tokio = { version = "1", features = ["macros", "rt", "sync", "time"] }
tokio-util = "0.7"
