[package]
name = "file_carrier"
version = "0.1.0"
edition = "2021"
publish = false

[dependencies]
clap = { version = "*", features = ["derive"] }
uuid = { version = "*", features = ["v4"] }
zbus = "*"
async-std = "*"
futures = "*"
thiserror = "*"
