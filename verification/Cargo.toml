[package]
name = "luatos_cli"
version = "0.1.0"
edition = "2021"
publish = false

[dependencies]
crc32fast = "=1.5.4"
sha2 = "=0.10.9"
md5 = "=0.7.0"
anyhow = "=1.0.104"
clap = { version = "=4.6.7", features = ["derive"] }
serialport = { version = "=4.10.1", default-features = false, features = ["usbportinfo-interface"] }
serde = { version = "=1.0.229", features = ["derive"] }
serde_json = "=1.0.154"
log = "=0.4.35"
ctrlc = "=3.5.2"
tempfile = "=3.27.0"
chrono = "0.4"
