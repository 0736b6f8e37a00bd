[package]
name = "fasb"
version = "0.1.0"
edition = "2021"
publish = false

[dependencies]
savan = "*"
regex = "1"
indicatif = "*"
rustyline = "*"
