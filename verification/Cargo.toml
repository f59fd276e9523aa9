[package]
name = "keysounds"
version = "0.1.0"
edition = "2021"
publish = false

[dependencies]
rdev = "*"
rodio = "*"
tokio = { version = "*", features = ["rt-multi-thread", "macros", "time", "sync"] }
