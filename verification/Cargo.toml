[package]
name = "decen_peer"
version = "0.1.0"
edition = "2021"
publish = false

[dependencies]
ring = "*"
data-encoding = "*"
uuid = { version = "*", features = ["v4"] }
async-std = "*"
futures = "*"
notify = "*"
clap = { version = "*", features = ["derive"] }
