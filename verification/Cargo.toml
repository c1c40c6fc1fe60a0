[package]
name = "arkade"
version = "0.1.0"
edition = "2021"
publish = false

[dependencies]
bitvec = "1"
pnet = "*"
socket2 = { version = "*", features = ["all"] }
libc = "0.2"
tokio = { version = "1", features = ["full"] }
clap = { version = "4", features = ["derive"] }
chrono = "0.4"
hyper = { version = "1", features = ["full"] }
hyper-util = { version = "*", features = ["full"] }
hyperlocal = "*"
http-body-util = "*"
serde_json = "1"
