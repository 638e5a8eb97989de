[package]
name = "exeico"
version = "0.1.0"
edition = "2021"
publish = false

[dependencies]
image = "=0.25.10"
base64 = "=0.23.1"
