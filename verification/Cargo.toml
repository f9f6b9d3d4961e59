[package]
name = "hwpers"
version = "0.1.0"
edition = "2021"
publish = false

[dependencies]
aes = "0.8"
byteorder = "1"
cfb = "0.10"
chrono = "0.4"
encoding_rs = "0.8"
flate2 = "1"
quick-xml = { version = "0.36", features = ["serialize"] }
serde = { version = "1", features = ["derive"] }
thiserror = "1"
