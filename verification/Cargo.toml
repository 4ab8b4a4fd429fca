[package]
name = "torchlight"
version = "0.1.0"
edition = "2021"
publish = false

[dependencies]
avr-device = { version = "*", features = ["attiny85"] }
embedded-hal = "1"
panic-halt = "*"
