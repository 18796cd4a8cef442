[package]
name = "bs"
version = "0.1.0"
edition = "2021"
publish = false

[dependencies]
hex = "0.4"
sha2 = "0.9"
indicatif = "*"
structopt = "0.3"
sodiumoxide = "*"
