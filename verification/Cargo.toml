[package]
name = "script_host"
version = "0.1.0"
edition = "2021"
publish = false

[dependencies]
anyhow = "1"
reqwest = { version = "*", features = ["blocking"] }
rusty_v8 = "*"
