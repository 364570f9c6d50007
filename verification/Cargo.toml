[package]
name = "ring"
version = "0.2.0"
edition = "2021"
publish = false

[dependencies]
getopts = "*"
socket2 = { version = "*", features = ["all"] }
ctrlc = "*"
