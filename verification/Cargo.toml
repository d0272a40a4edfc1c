[package]
name = "airmash-server"
version = "0.1.0"
edition = "2021"
publish = false

[dependencies]
tokio = { version = "1", features = ["rt", "time"] }
ctrlc = "*"
log = "0.4"
simple_logger = "*"
