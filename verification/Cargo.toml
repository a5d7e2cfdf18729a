[package]
name = "finspect"
version = "0.1.0"
edition = "2021"
publish = false

[dependencies]
chrono = "*"
syntect = { version = "*", default-features = false, features = ["default-fancy"] }

[dev-dependencies]
libc = "*"
