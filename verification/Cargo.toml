[package]
name = "periphemu"
version = "0.1.0"
edition = "2021"
publish = false

[dependencies]
socketcan = "1"
serde = { version = "1", features = ["derive"] }
byteorder = "1"
parking_lot = "0.12"
log = "0.4"
thiserror = "1"
fugue = "0.2"
fuguex = "0.2"
