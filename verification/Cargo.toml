[package]
name = "packet_server"
version = "0.1.0"
edition = "2021"
publish = false

[dependencies]
rmp = "0.8"
byteorder = "1"
thiserror = "1"
log = "0.4"
anyhow = "1"
parking_lot = "0.12"
owo-colors = "3"
