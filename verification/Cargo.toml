[package]
name = "offsig_demo"
version = "0.1.0"
edition = "2021"
publish = false

[dependencies]
anchor-lang = "=0.30.1"
byteorder = "=1.5.0"
