[package]
name = "toyfuzzer"
version = "0.1.0"
edition = "2021"
publish = false

[dependencies]
libafl = { version = "0.11.2", default-features = false, features = ["std"] }
libafl_bolts = { version = "0.11.2", default-features = false, features = ["std"] }
