[package]
name = "falcon"
version = "0.1.0"
edition = "2021"
publish = false

[dependencies]
sha2 = "*"
base16ct = { version = "*", features = ["alloc"] }
uuid = { version = "*", features = ["v4"] }
xz2 = { version = "*", features = ["static"] }
libc = "*"
tokio = { version = "*", features = ["rt-multi-thread", "macros", "time", "fs", "io-util", "io-std", "process", "sync", "net"] }
futures = "*"
tokio-tungstenite = "*"
reqwest = { version = "*", default-features = false, features = ["stream"] }
