[package]
name = "hivm2"
version = "0.1.0"
edition = "2021"

[dependencies]
byteorder = "1"
nom = "1"
