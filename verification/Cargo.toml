[package]
name = "umeboshi"
version = "0.2.0"
edition = "2021"
publish = false

[dependencies]
fnv = "1"
onigiri = "*"
termion = "*"
