[package]
name = "shock"
version = "0.1.0"
edition = "2021"
publish = false

[dependencies]
libmath = "0.2"
nom = "4"
rustyline = "*"
uuid = { version = "0.8", features = ["v4"] }
