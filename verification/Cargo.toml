[package]
name = "rtsp_server"
version = "0.1.0"
edition = "2021"
publish = false

[dependencies]
async-std = "1"
chrono = "0.4"
either = "1"
futures = "0.3"
log = "0.4"
once_cell = "1"
pin-utils = "0.1"
rand = "0.8"
rtsp-types = "*"
sdp-types = "*"
url = "2"
uuid = { version = "0.8", features = ["v1"] }
