[package]
name = "tfrecord"
version = "0.1.0"
edition = "2021"
publish = false

[dependencies]
crc = "=3.4.0"
integer-encoding = "=4.1.0"
prost = "=0.14.4"
thiserror = "=2.0.21"
hostname = "=0.4.2"
serde = { version = "=1.0.229", features = ["derive"] }
image = { version = "0.23", default-features = false }
ndarray = "0.15"
