[package]
name = "ist7920"
version = "0.1.0"
edition = "2021"
publish = false

[dependencies]
display-interface = "0.4"
embedded-hal = "0.2"
embedded-graphics-core = "0.3"
