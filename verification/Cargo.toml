[package]
name = "modrack"
version = "0.1.0"
edition = "2021"
publish = false

[dependencies]
topological-sort = "*"
ringbuf = "0.3"
rand = "0.8"
biquad = "*"
