[package]
name = "ayaka_runtime"
version = "0.1.0"
edition = "2021"
publish = false

[dependencies]
rand = "0.8"
pulldown-cmark = { version = "0.9", default-features = false }
wasmi = "0.31"
