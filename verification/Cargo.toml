[package]
name = "raspirus"
version = "0.1.0"
edition = "2021"
publish = false

[dependencies]
md5 = "0.7"
flume = "0.11"
walkdir = "2"
chrono = "0.4"
directories-next = "2"
serde = { version = "1", features = ["derive"] }
serde_json = "1"
