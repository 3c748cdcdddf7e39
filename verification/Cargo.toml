[package]
name = "cordyceps"
version = "0.0.1"
edition = "2021"
publish = false

[dependencies]
crossterm = "0.29"
tokio = { version = "1", features = ["macros", "rt-multi-thread", "time"] }
