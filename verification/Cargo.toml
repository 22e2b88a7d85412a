[package]
name = "moonproto"
version = "0.1.0"
edition = "2021"
publish = false

[dependencies]
base64 = "0.22"
crc32fast = "1"
flate2 = "1"
libc = "0.2"
log = "0.4"
rand = "0.8"
serde = { version = "1", features = ["derive"] }
socket2 = "0.5"
polling = "3"

[dev-dependencies]
serde_json = "1"
