[package]
name = "blinkie"
version = "0.1.0"
edition = "2021"
publish = false

[dependencies]
nb = "1.1.0"
panic-halt = "0.2.0"
ufmt = "0.2.0"
