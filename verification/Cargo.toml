[package]
name = "aoe_djin"
version = "0.1.0"
edition = "2021"
publish = false

[dependencies]
flate2 = "1"
eyre = "0.6"
djin-protocol = "*"
