[package]
name = "c2l"
version = "0.1.0"
edition = "2021"
publish = false

[dependencies]
conch-parser = "0.1"
structopt = "0.3"
xml-rs = "0.8"
