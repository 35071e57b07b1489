[package]
name = "tetris"
version = "0.1.0"
edition = "2021"
publish = false

[dependencies]
ggez = { version = "0.9", default-features = false }
glam = { version = "0.24", features = ["mint"] }
rand = "0.8"
stopwatch = "0.0.7"
winapi = { version = "0.3", features = ["wincon"] }
